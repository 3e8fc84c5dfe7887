//! Message selection: a client-specified window becomes one of four
//! canonical selection modes, and channel visibility is applied uniformly
//! across all of them.
//!
//! Whatever the mode, results come back in ascending timestamp order with
//! the store id as tie-break, so pagination is deterministic even when
//! several messages share a second.

use vstd::prelude::*;
use vstd::seq_lib::group_seq_lib_default;
use vstd::multiset::Multiset;
use crate::message::{Message, MessageV};

verus! {

broadcast use group_seq_lib_default, vstd::seq_lib::group_to_multiset_ensures;

/// How many messages a query returns when no cursor or time parameter
/// is supplied.
pub const DEFAULT_LAST_COUNT: i64 = 150;

/// The four canonical selection modes.
#[derive(Debug, Clone, Copy, PartialEq, Eq, Structural)]
pub enum Interval {
    /// Every message whose store id is strictly greater than the cursor.
    AllFromId(i32),
    /// Every message strictly newer than the timestamp.
    AllFromTimestamp(i64),
    /// Every message strictly between the two timestamps.
    FromToTimestamp(i64, i64),
    /// The `n` most recent messages, still returned oldest first.
    Last(i64),
}

impl Default for Interval {
    fn default() -> (r: Interval)
        ensures
            r == Interval::Last(DEFAULT_LAST_COUNT),
    {
        Interval::Last(DEFAULT_LAST_COUNT)
    }
}

pub open spec fn msg_views(s: Seq<Message>) -> Seq<MessageV> {
    s.map_values(|m: Message| m@)
}

pub open spec fn chan_views(s: Seq<String>) -> Seq<Seq<char>> {
    s.map_values(|c: String| c@)
}

/// A message is visible when its channel is among the requested ones, or
/// when it sits on the default channel and the request includes it. With
/// `include_default` false and no requested channels nothing is visible.
pub open spec fn spec_channel_visible(
    channel: Option<Seq<char>>,
    channels: Seq<Seq<char>>,
    include_default: bool,
) -> bool {
    match channel {
        Some(c) => channels.contains(c),
        None => include_default,
    }
}

/// Whether a message falls in the mode's window; `Last` restricts by
/// count, not by a predicate, so every message qualifies here.
pub open spec fn spec_in_interval(m: MessageV, interval: Interval) -> bool {
    match interval {
        Interval::AllFromId(id) => m.id > id,
        Interval::AllFromTimestamp(t) => m.timestamp > t,
        Interval::FromToTimestamp(t0, t1) => t0 < m.timestamp && m.timestamp < t1,
        Interval::Last(_) => true,
    }
}

pub open spec fn spec_selectable(
    m: MessageV,
    interval: Interval,
    channels: Seq<Seq<char>>,
    include_default: bool,
) -> bool {
    spec_in_interval(m, interval) && spec_channel_visible(m.channel, channels, include_default)
}

/// Ascending timestamp with ascending store id as tie-break.
pub open spec fn spec_msg_le(a: MessageV, b: MessageV) -> bool {
    a.timestamp < b.timestamp || (a.timestamp == b.timestamp && a.id <= b.id)
}

pub open spec fn spec_sorted(s: Seq<MessageV>) -> bool {
    forall|i: int, j: int| 0 <= i < j < s.len() ==> spec_msg_le(s[i], s[j])
}

/// How many of the most recent messages `Last(n)` keeps out of `avail`
/// visible ones: `n` clamped to `[0, avail]`.
pub open spec fn spec_last_count(n: i64, avail: int) -> int {
    if n < 0 {
        0
    } else if n > avail {
        avail
    } else {
        n as int
    }
}

fn msg_le(a: &Message, b: &Message) -> (r: bool)
    ensures
        r == spec_msg_le(a@, b@),
{
    a.timestamp < b.timestamp || (a.timestamp == b.timestamp && a.id <= b.id)
}

/// Whether the message's channel is visible for this request.
#[verifier::loop_isolation(false)]
fn channel_visible(channel: &Option<String>, channels: &Vec<String>, include_default: bool) -> (r:
    bool)
    ensures
        r == spec_channel_visible(
            match channel {
                Some(c) => Some(c@),
                None => None,
            },
            chan_views(channels@),
            include_default,
        ),
{
    match channel {
        None => include_default,
        Some(c) => {
            let n = channels.len();
            let mut i: usize = 0;
            while i < n
                invariant
                    n == channels@.len(),
                    0 <= i <= n,
                    forall|j: int| 0 <= j < i ==> chan_views(channels@)[j] != c@,
                decreases n - i,
            {
                if channels[i] == *c {
                    proof {
                        assert(chan_views(channels@)[i as int] == c@);
                        assert(chan_views(channels@).contains(c@));
                    }
                    return true;
                }
                i += 1;
            }
            proof {
                if chan_views(channels@).contains(c@) {
                    let j = choose|j: int|
                        0 <= j < chan_views(channels@).len() && chan_views(channels@)[j] == c@;
                    assert(chan_views(channels@)[j] != c@);
                }
            }
            false
        },
    }
}

fn in_interval(m: &Message, interval: &Interval) -> (r: bool)
    ensures
        r == spec_in_interval(m@, *interval),
{
    match *interval {
        Interval::AllFromId(id) => m.id > id,
        Interval::AllFromTimestamp(t) => m.timestamp > t,
        Interval::FromToTimestamp(t0, t1) => t0 < m.timestamp && m.timestamp < t1,
        Interval::Last(_) => true,
    }
}

/// The visible messages of the window, in their stored order.
fn filter_messages(
    messages: &Vec<Message>,
    interval: &Interval,
    channels: &Vec<String>,
    include_default_channel: bool,
) -> (r: Vec<Message>)
    ensures
        msg_views(r@) == msg_views(messages@).filter(
            |m: MessageV|
                spec_selectable(m, *interval, chan_views(channels@), include_default_channel),
        ),
{
    let ghost s0 = msg_views(messages@);
    let ghost pred = |m: MessageV|
        spec_selectable(m, *interval, chan_views(channels@), include_default_channel);
    let mut r: Vec<Message> = Vec::new();
    let n = messages.len();
    let mut i: usize = 0;
    while i < n
        invariant
            n == messages@.len(),
            0 <= i <= n,
            s0 == msg_views(messages@),
            pred == (|m: MessageV|
                spec_selectable(m, *interval, chan_views(channels@), include_default_channel)),
            msg_views(r@) == s0.take(i as int).filter(pred),
        decreases n - i,
    {
        let ghost before = msg_views(r@);
        let keep = in_interval(&messages[i], interval) && channel_visible(
            &messages[i].channel,
            channels,
            include_default_channel,
        );
        if keep {
            r.push((&messages[i]).duplicate());
        }
        proof {
            reveal(Seq::filter);
            let t1 = s0.take(i + 1);
            assert(t1.drop_last() =~= s0.take(i as int));
            assert(t1.last() == s0[i as int]);
            assert(keep == pred(s0[i as int]));
            if keep {
                assert(msg_views(r@) =~= before.push(s0[i as int]));
            }
        }
        i += 1;
    }
    proof {
        assert(s0.take(n as int) =~= s0);
    }
    r
}

/// The index of a minimal message under the selection order.
fn min_index(v: &Vec<Message>) -> (mi: usize)
    requires
        v@.len() > 0,
    ensures
        mi < v@.len(),
        forall|k: int| 0 <= k < v@.len() ==> spec_msg_le(v@[mi as int]@, #[trigger] v@[k]@),
{
    let mut mi: usize = 0;
    let n = v.len();
    let mut i: usize = 1;
    while i < n
        invariant
            n == v@.len(),
            0 < n,
            mi < i <= n || (mi == 0 && i <= n),
            mi < n,
            forall|k: int| 0 <= k < i ==> spec_msg_le(v@[mi as int]@, #[trigger] v@[k]@),
        decreases n - i,
    {
        if msg_le(&v[i], &v[mi]) {
            mi = i;
        }
        i += 1;
    }
    mi
}

/// Sorts by ascending timestamp, id as tie-break; the result is a
/// permutation of the input.
fn sort_messages(v: Vec<Message>) -> (r: Vec<Message>)
    ensures
        spec_sorted(msg_views(r@)),
        msg_views(r@).to_multiset() == msg_views(v@).to_multiset(),
        msg_views(r@).len() == msg_views(v@).len(),
{
    let ghost s0 = msg_views(v@);
    let mut rest = v;
    let mut r: Vec<Message> = Vec::new();
    while rest.len() > 0
        invariant
            msg_views(r@).to_multiset().add(msg_views(rest@).to_multiset()) == s0.to_multiset(),
            msg_views(r@).len() + msg_views(rest@).len() == s0.len(),
            spec_sorted(msg_views(r@)),
            forall|a: int, b: int|
                0 <= a < r@.len() && 0 <= b < rest@.len() ==> spec_msg_le(
                    #[trigger] r@[a]@,
                    #[trigger] rest@[b]@,
                ),
        decreases rest@.len(),
    {
        let ghost r_before = msg_views(r@);
        let ghost rest_before = msg_views(rest@);
        let mi = min_index(&rest);
        let m = rest.remove(mi);
        r.push(m);
        proof {
            assert(msg_views(rest@) =~= rest_before.remove(mi as int));
            assert(msg_views(r@) =~= r_before.push(rest_before[mi as int]));
            assert(msg_views(r@).to_multiset().add(msg_views(rest@).to_multiset()) =~= s0
                .to_multiset());
            assert forall|a: int, b: int|
                0 <= a < r@.len() && 0 <= b < rest@.len() implies spec_msg_le(
                #[trigger] r@[a]@,
                #[trigger] rest@[b]@,
            ) by {
                if a < r@.len() - 1 {
                    assert(spec_msg_le(r_before[a], rest_before[if b < mi {
                        b
                    } else {
                        b + 1
                    }]));
                } else {
                    assert(spec_msg_le(rest_before[mi as int], rest_before[if b < mi {
                        b
                    } else {
                        b + 1
                    }]));
                }
            }
        }
    }
    proof {
        assert(msg_views(rest@).to_multiset() =~= Multiset::<MessageV>::empty());
        assert(msg_views(r@).to_multiset() =~= s0.to_multiset());
    }
    r
}

/// Distinct store keys make selection deterministic: two sorted
/// sequences holding the same messages are the same sequence, provided
/// no two distinct messages share both timestamp and id — which store
/// ids, being unique, guarantee.
pub proof fn lemma_selection_deterministic(x: Seq<MessageV>, y: Seq<MessageV>)
    requires
        spec_sorted(x),
        spec_sorted(y),
        x.to_multiset() == y.to_multiset(),
        forall|i: int, j: int|
            0 <= i < j < x.len() ==> !(x[i].timestamp == x[j].timestamp && x[i].id == x[j].id),
    ensures
        x == y,
    decreases x.len(),
{
    broadcast use vstd::multiset::group_multiset_axioms;

    x.to_multiset_ensures();
    y.to_multiset_ensures();
    if x.len() == 0 {
        assert(y.to_multiset().len() == 0);
        assert(y =~= Seq::<MessageV>::empty());
        assert(x =~= y);
    } else {
        assert(x.to_multiset().contains(x[0]));
        assert(y.to_multiset().contains(y[0]));
        assert(x.contains(y[0]));
        assert(y.contains(x[0]));
        let i = choose|i: int| 0 <= i < x.len() && x[i] == y[0];
        let j = choose|j: int| 0 <= j < y.len() && y[j] == x[0];
        if i > 0 {
            assert(spec_msg_le(x[0], x[i]));
            assert(spec_msg_le(y[0], y[j]) || j == 0);
            assert(spec_msg_le(x[i], x[0]));
            assert(x[0].timestamp == x[i].timestamp && x[0].id == x[i].id);
            assert(false);
        }
        assert(x[0] == y[0]);
        let xr = x.drop_first();
        let yr = y.drop_first();
        assert(xr =~= x.remove(0));
        assert(yr =~= y.remove(0));
        assert(x.remove(0).to_multiset() == x.to_multiset().remove(x[0]));
        assert(y.remove(0).to_multiset() == y.to_multiset().remove(y[0]));
        assert forall|a: int, b: int|
            0 <= a < b < xr.len() implies !(xr[a].timestamp == xr[b].timestamp && xr[a].id
            == xr[b].id) by {
            assert(xr[a] == x[a + 1] && xr[b] == x[b + 1]);
        }
        assert forall|a: int, b: int| 0 <= a < b < xr.len() implies spec_msg_le(xr[a], xr[b]) by {
            assert(xr[a] == x[a + 1] && xr[b] == x[b + 1]);
        }
        assert forall|a: int, b: int| 0 <= a < b < yr.len() implies spec_msg_le(yr[a], yr[b]) by {
            assert(yr[a] == y[a + 1] && yr[b] == y[b + 1]);
        }
        lemma_selection_deterministic(xr, yr);
        assert(x.to_multiset().len() == x.len());
        assert(y.to_multiset().len() == y.len());
        assert(x.len() == y.len());
        assert forall|k: int| 0 <= k < x.len() implies x[k] == y[k] by {
            if k > 0 {
                assert(x[k] == xr[k - 1] && y[k] == yr[k - 1]);
            }
        }
        assert(x =~= y);
    }
}

/// Applies a selection request to a sequence of stored messages: the
/// selection every store query must realize, stated once and runnable
/// directly against an in-memory sequence.
///
/// The result is sorted by ascending timestamp (store id as tie-break)
/// and holds exactly the visible messages of the window; for `Last(n)`
/// it holds the `n` greatest under that order, still ascending.
pub fn select_messages(
    messages: &Vec<Message>,
    interval: &Interval,
    channels: &Vec<String>,
    include_default_channel: bool,
) -> (r: Vec<Message>)
    ensures
        ({
            let pred = |m: MessageV|
                spec_selectable(m, *interval, chan_views(channels@), include_default_channel);
            let visible = msg_views(messages@).filter(pred);
            &&& spec_sorted(msg_views(r@))
            &&& match *interval {
                Interval::Last(n) => exists|s: Seq<MessageV>|
                    {
                        &&& spec_sorted(s)
                        &&& s.to_multiset() == visible.to_multiset()
                        &&& #[trigger] msg_views(r@) == s.subrange(
                            s.len() - spec_last_count(n, s.len() as int),
                            s.len() as int,
                        )
                    },
                _ => msg_views(r@).to_multiset() == visible.to_multiset(),
            }
        }),
{
    let filtered = filter_messages(messages, interval, channels, include_default_channel);
    let mut sorted = sort_messages(filtered);
    match *interval {
        Interval::Last(n) => {
            let ghost s = msg_views(sorted@);
            let len = sorted.len();
            let keep: usize = if n < 0 {
                0
            } else if n as u64 >= len as u64 {
                len
            } else {
                n as usize
            };
            let tail = sorted.split_off(len - keep);
            proof {
                assert(keep as int == spec_last_count(n, s.len() as int));
                assert(msg_views(tail@) =~= s.subrange(s.len() - keep, s.len() as int));
                assert forall|i: int, j: int|
                    0 <= i < j < msg_views(tail@).len() implies spec_msg_le(
                    msg_views(tail@)[i],
                    msg_views(tail@)[j],
                ) by {
                    assert(msg_views(tail@)[i] == s[s.len() - keep + i]);
                    assert(msg_views(tail@)[j] == s[s.len() - keep + j]);
                }
            }
            tail
        },
        _ => sorted,
    }
}

} // verus!
