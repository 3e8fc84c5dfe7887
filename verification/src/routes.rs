//! What the transport layer needs from the core: success-response
//! shells, and the exact interpretation of request parameters — channel
//! lists, the activity flag, and the precedence among cursor parameters.

use vstd::prelude::*;
use vstd::string::{StringExecFns, StrSliceExecFns};
use crate::error::ChatError;
use crate::message::Message;
use crate::selector::{chan_views, Interval, DEFAULT_LAST_COUNT};
use crate::user::ConnectedUser;
use crate::utils::{parse_i32, spec_parsed_i32, spec_timestamp_value, timestamp_parse};

verus! {

/// The body of a success answer; absent parts are left out of the wire
/// encoding.
#[derive(Debug)]
pub struct JsonSuccess {
    pub status: String,
    pub users_connected: Option<Vec<ConnectedUser>>,
    pub messages: Option<Vec<Message>>,
    pub auth_key: Option<String>,
}

impl JsonSuccess {
    pub fn empty() -> (r: JsonSuccess)
        ensures
            r.status@ == "success"@,
            r.messages is None,
            r.users_connected is None,
            r.auth_key is None,
    {
        JsonSuccess {
            status: "success".to_owned(),
            messages: None,
            users_connected: None,
            auth_key: None,
        }
    }

    pub fn with_messages(v: Vec<Message>) -> (r: JsonSuccess)
        ensures
            r.status@ == "success"@,
            r.messages == Some(v),
            r.users_connected is None,
            r.auth_key is None,
    {
        JsonSuccess {
            status: "success".to_owned(),
            messages: Some(v),
            users_connected: None,
            auth_key: None,
        }
    }

    pub fn with_messages_and_connected(v: Vec<Message>, users: Vec<ConnectedUser>) -> (r:
        JsonSuccess)
        ensures
            r.status@ == "success"@,
            r.messages == Some(v),
            r.users_connected == Some(users),
            r.auth_key is None,
    {
        JsonSuccess {
            status: "success".to_owned(),
            messages: Some(v),
            users_connected: Some(users),
            auth_key: None,
        }
    }

    pub fn with_auth_key(auth_key: String) -> (r: JsonSuccess)
        ensures
            r.status@ == "success"@,
            r.messages is None,
            r.users_connected is None,
            r.auth_key == Some(auth_key),
    {
        JsonSuccess {
            status: "success".to_owned(),
            messages: None,
            users_connected: None,
            auth_key: Some(auth_key),
        }
    }
}

/// Whether two strings hold the same characters.
pub fn str_eq(a: &str, b: &str) -> (r: bool)
    ensures
        r == (a@ == b@),
{
    let aa: String = a.to_owned();
    let bb: String = b.to_owned();
    aa == bb
}

/// How an `active` query value reads: everything is active except the
/// literal refusals.
pub open spec fn spec_active_param(v: Seq<char>) -> bool {
    !(v == "false"@ || v == "FALSE"@ || v == "0"@)
}

pub fn active_param(value: &str) -> (r: bool)
    ensures
        r == spec_active_param(value@),
{
    !(str_eq(value, "false") || str_eq(value, "FALSE") || str_eq(value, "0"))
}

/// What splitting on commas yields: the segments between the commas, in
/// order, empty segments kept; a string with no comma is one segment.
pub open spec fn spec_split_commas(s: Seq<char>) -> Seq<Seq<char>>
    decreases s.len(),
{
    if s.len() == 0 {
        seq![Seq::<char>::empty()]
    } else if s[0] == ',' {
        seq![Seq::<char>::empty()] + spec_split_commas(s.skip(1))
    } else {
        let rest = spec_split_commas(s.skip(1));
        seq![seq![s[0]] + rest[0]] + rest.skip(1)
    }
}

proof fn lemma_split_commas_nonempty(s: Seq<char>)
    ensures
        spec_split_commas(s).len() >= 1,
    decreases s.len(),
{
    if s.len() != 0 {
        lemma_split_commas_nonempty(s.skip(1));
    }
}

/// Splits a `channels` parameter on commas, exactly as the request
/// format defines it.
#[verifier::loop_isolation(false)]
pub fn split_channels(t: &str) -> (r: Vec<String>)
    ensures
        chan_views(r@) == spec_split_commas(t@),
{
    let n = t.unicode_len();
    let mut out: Vec<String> = Vec::new();
    let mut seg_start: usize = 0;
    let mut i: usize = 0;
    proof {
        lemma_split_commas_nonempty(t@.skip(0));
        assert(t@.skip(0) =~= t@);
        let rest = spec_split_commas(t@);
        assert(chan_views(out@) =~= Seq::<Seq<char>>::empty());
        assert(t@.subrange(0, 0) =~= Seq::<char>::empty());
        assert(t@.subrange(0, 0) + rest[0] =~= rest[0]);
        assert(Seq::<Seq<char>>::empty() + seq![rest[0]] + rest.skip(1) =~= rest);
    }
    while i < n
        invariant
            0 <= seg_start <= i <= n,
            ({
                let pending = t@.subrange(seg_start as int, i as int);
                let rest = spec_split_commas(t@.skip(i as int));
                chan_views(out@) + seq![pending + rest[0]] + rest.skip(1) == spec_split_commas(t@)
            }),
        decreases n - i,
    {
        proof {
            lemma_split_commas_nonempty(t@.skip(i as int));
            lemma_split_commas_nonempty(t@.skip(i + 1));
        }
        let c = t.get_char(i);
        let ghost pending = t@.subrange(seg_start as int, i as int);
        let ghost rest = spec_split_commas(t@.skip(i as int));
        let ghost rest1 = spec_split_commas(t@.skip(i + 1));
        proof {
            assert(t@.skip(i as int)[0] == t@[i as int]);
            assert(t@.skip(i as int).skip(1) =~= t@.skip(i + 1));
        }
        if c == ',' {
            let ghost out_before = chan_views(out@);
            let seg = t.substring_char(seg_start, i);
            out.push(seg.to_owned());
            proof {
                assert(rest =~= seq![Seq::<char>::empty()] + rest1);
                assert(rest[0] =~= Seq::<char>::empty());
                assert(pending + rest[0] =~= pending);
                assert(rest.skip(1) =~= rest1);
                assert(chan_views(out@) =~= out_before.push(pending));
                assert(chan_views(out@) + seq![t@.subrange(i + 1, i + 1) + rest1[0]] + rest1.skip(1)
                    =~= spec_split_commas(t@));
            }
            seg_start = i + 1;
        } else {
            proof {
                assert(rest =~= seq![seq![t@[i as int]] + rest1[0]] + rest1.skip(1));
                assert(rest[0] =~= seq![t@[i as int]] + rest1[0]);
                assert(t@.subrange(seg_start as int, i + 1) =~= pending + seq![t@[i as int]]);
                assert(pending + rest[0] =~= t@.subrange(seg_start as int, i + 1) + rest1[0]);
                assert(rest.skip(1) =~= rest1.skip(1));
                assert(chan_views(out@) + seq![t@.subrange(seg_start as int, i + 1) + rest1[0]]
                    + rest1.skip(1) =~= spec_split_commas(t@));
            }
        }
        i += 1;
    }
    let seg = t.substring_char(seg_start, n);
    out.push(seg.to_owned());
    proof {
        let rest = spec_split_commas(t@.skip(n as int));
        assert(t@.skip(n as int) =~= Seq::<char>::empty());
        assert(rest =~= seq![Seq::<char>::empty()]);
        assert(t@.subrange(seg_start as int, n as int) + rest[0] =~= t@.subrange(
            seg_start as int,
            n as int,
        ));
        assert(rest.skip(1) =~= Seq::<Seq<char>>::empty());
        assert(chan_views(out@) =~= spec_split_commas(t@));
    }
    out
}

/// The selection window a heartbeat request names: the id cursor wins
/// over the timestamp, and with neither the default window applies.
pub open spec fn spec_heartbeat_interval(ts: Option<Seq<char>>, mid: Option<Seq<char>>) -> Result<
    Interval,
    ChatError,
> {
    match (ts, mid) {
        (None, None) => Ok(Interval::Last(DEFAULT_LAST_COUNT)),
        (Some(t), None) => match spec_timestamp_value(t) {
            Some(v) => Ok(Interval::AllFromTimestamp(v)),
            None => Err(ChatError::MalformedInput),
        },
        (_, Some(m)) => match spec_parsed_i32(m) {
            Some(id) => Ok(Interval::AllFromId(id)),
            None => Err(ChatError::MalformedInput),
        },
    }
}

pub fn heartbeat_interval(timestamp: Option<&str>, message_id: Option<&str>) -> (r: Result<
    Interval,
    ChatError,
>)
    ensures
        r == spec_heartbeat_interval(
            match timestamp {
                Some(t) => Some(t@),
                None => None,
            },
            match message_id {
                Some(m) => Some(m@),
                None => None,
            },
        ),
{
    match (timestamp, message_id) {
        (None, None) => Ok(Interval::Last(DEFAULT_LAST_COUNT)),
        (Some(t), None) => match timestamp_parse(t) {
            Ok(v) => Ok(Interval::AllFromTimestamp(v)),
            Err(e) => Err(e),
        },
        (_, Some(m)) => match parse_i32(m) {
            Some(id) => Ok(Interval::AllFromId(id)),
            None => Err(ChatError::MalformedInput),
        },
    }
}

/// The selection window a message query names: an id cursor wins; a
/// lone timestamp opens an unbounded window, a pair bounds it; with
/// nothing given the default window applies.
pub open spec fn spec_query_interval(
    mid: Option<Seq<char>>,
    ts: Option<Seq<char>>,
    te: Option<Seq<char>>,
) -> Result<Interval, ChatError> {
    match (mid, ts, te) {
        (None, Some(t), None) => match spec_timestamp_value(t) {
            Some(v) => Ok(Interval::AllFromTimestamp(v)),
            None => Err(ChatError::MalformedInput),
        },
        (None, Some(t), Some(u)) => match spec_timestamp_value(t) {
            Some(v) => match spec_timestamp_value(u) {
                Some(w) => Ok(Interval::FromToTimestamp(v, w)),
                None => Err(ChatError::MalformedInput),
            },
            None => Err(ChatError::MalformedInput),
        },
        (Some(m), _, _) => match spec_parsed_i32(m) {
            Some(id) => Ok(Interval::AllFromId(id)),
            None => Err(ChatError::MalformedInput),
        },
        _ => Ok(Interval::Last(DEFAULT_LAST_COUNT)),
    }
}

pub fn query_interval(
    message_id: Option<&str>,
    timestamp: Option<&str>,
    timestamp_end: Option<&str>,
) -> (r: Result<Interval, ChatError>)
    ensures
        r == spec_query_interval(
            match message_id {
                Some(m) => Some(m@),
                None => None,
            },
            match timestamp {
                Some(t) => Some(t@),
                None => None,
            },
            match timestamp_end {
                Some(t) => Some(t@),
                None => None,
            },
        ),
{
    match (message_id, timestamp, timestamp_end) {
        (None, Some(t), None) => match timestamp_parse(t) {
            Ok(v) => Ok(Interval::AllFromTimestamp(v)),
            Err(e) => Err(e),
        },
        (None, Some(t), Some(u)) => match timestamp_parse(t) {
            Ok(v) => match timestamp_parse(u) {
                Ok(w) => Ok(Interval::FromToTimestamp(v, w)),
                Err(e) => Err(e),
            },
            Err(e) => Err(e),
        },
        (Some(m), _, _) => match parse_i32(m) {
            Some(id) => Ok(Interval::AllFromId(id)),
            None => Err(ChatError::MalformedInput),
        },
        _ => Ok(Interval::Last(DEFAULT_LAST_COUNT)),
    }
}

/// The JSON shell the transport wraps a bare error text in.
pub fn wrap_error_json(body: &str) -> (r: String)
    ensures
        r@ == "{\"error\":\""@ + body@ + "\"}"@,
{
    let mut s = String::from_str("{\"error\":\"");
    s.append(body);
    s.append("\"}");
    s
}

} // verus!
