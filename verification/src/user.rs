//! The session cache and the presence tracker.
//!
//! Both key on username but are independent maps with independent
//! lifecycles: a user can be present without being logged in (anonymous
//! heartbeat) and logged in without a presence record (no heartbeat yet).

use vstd::prelude::*;
use vstd::hash_map::StringHashMap;
use crate::error::ChatError;

verus! {

/// Number of characters in an issued authentication token.
pub const AUTH_KEY_LEN: usize = 16;

/// The characters a token may hold: ASCII alphanumerics.
pub open spec fn spec_token_char(c: char) -> bool {
    ('0' <= c && c <= '9') || ('A' <= c && c <= 'Z') || ('a' <= c && c <= 'z')
}

/// The outcome of validating a `(username, auth_key)` pair: the three
/// cases demand different answers, so this is a tagged union rather
/// than a boolean with a side channel.
#[derive(Debug, Clone, Copy, PartialEq, Eq, Structural)]
pub enum UserConnectionStatus {
    /// A session exists for the username but the token does not match.
    AuthFailed,
    /// No session exists for the username.
    NotLoggedIn,
    /// Token accepted; the payload is the session's admin flag.
    Connected(bool),
}

/// What the session cache stores for one logged-in user.
#[derive(Debug)]
pub struct CachedUser {
    pub auth_key: String,
    pub admin: bool,
}

/// The mathematical content of a session record.
pub ghost struct CachedUserV {
    pub auth_key: Seq<char>,
    pub admin: bool,
}

impl View for CachedUser {
    type V = CachedUserV;

    open spec fn view(&self) -> CachedUserV {
        CachedUserV { auth_key: self.auth_key@, admin: self.admin }
    }
}

/// The session cache: username to issued token and admin flag.
///
/// A record is created on the first successful login or registration for
/// a username, kept unchanged by later logins, and destroyed only by an
/// explicit logout.
pub struct CachedUsers {
    users: StringHashMap<CachedUser>,
}

impl View for CachedUsers {
    type V = Map<Seq<char>, CachedUserV>;

    closed spec fn view(&self) -> Map<Seq<char>, CachedUserV> {
        Map::new(|u: Seq<char>| self.users@.contains_key(u), |u: Seq<char>| self.users@[u]@)
    }
}

/// The token a login returns: the cached one where the username is already
/// known, otherwise whatever fresh token the generator supplied.
pub open spec fn spec_login_key(
    m: Map<Seq<char>, CachedUserV>,
    u: Seq<char>,
    fresh: Seq<char>,
) -> Seq<char> {
    if m.contains_key(u) {
        m[u].auth_key
    } else {
        fresh
    }
}

/// The cache after a login: unchanged for a known username, otherwise
/// extended with a record holding the fresh token and the supplied
/// admin flag.
pub open spec fn spec_login_map(
    m: Map<Seq<char>, CachedUserV>,
    u: Seq<char>,
    admin: bool,
    fresh: Seq<char>,
) -> Map<Seq<char>, CachedUserV> {
    if m.contains_key(u) {
        m
    } else {
        m.insert(u, CachedUserV { auth_key: fresh, admin })
    }
}

/// The three-way outcome of validating a pair against the cache.
pub open spec fn spec_check(
    m: Map<Seq<char>, CachedUserV>,
    u: Seq<char>,
    k: Seq<char>,
) -> UserConnectionStatus {
    if !m.contains_key(u) {
        UserConnectionStatus::NotLoggedIn
    } else if m[u].auth_key != k {
        UserConnectionStatus::AuthFailed
    } else {
        UserConnectionStatus::Connected(m[u].admin)
    }
}

/// Relies on rand's `Alphanumeric` distribution: `sample_string` draws
/// exactly the requested number of characters from the thread generator,
/// each one ASCII alphanumeric.
#[verifier::external_body]
fn generate_auth_key() -> (r: String)
    ensures
        r@.len() == AUTH_KEY_LEN,
        forall|i: int| 0 <= i < r@.len() ==> spec_token_char(#[trigger] r@[i]),
{
    rand::distr::SampleString::sample_string(&rand::distr::Alphanumeric, &mut rand::rng(), 16)
}

impl CachedUsers {
    pub fn new() -> (r: CachedUsers)
        ensures
            r@ == Map::<Seq<char>, CachedUserV>::empty(),
    {
        let users = StringHashMap::new();
        let r = CachedUsers { users };
        proof {
            assert(r@ =~= Map::<Seq<char>, CachedUserV>::empty());
        }
        r
    }

    /// Issues a token for the username. Repeated logins never rotate the
    /// token: an already-cached user gets the stored token back and the
    /// cache is left untouched, whatever admin flag is supplied. Otherwise
    /// a fresh random token is stored and returned.
    pub fn login(&mut self, username: &str, admin: bool) -> (r: String)
        ensures
            final(self)@ == spec_login_map(old(self)@, username@, admin, r@),
            r@ == spec_login_key(old(self)@, username@, r@),
            !old(self)@.contains_key(username@) ==> r@.len() == AUTH_KEY_LEN && (forall|i: int|
                0 <= i < r@.len() ==> spec_token_char(#[trigger] r@[i])),
    {
        match self.users.get(username) {
            Some(cached) => cached.auth_key.clone(),
            None => {
                let auth_key = generate_auth_key();
                let record = CachedUser { auth_key: auth_key.clone(), admin };
                self.users.insert(username.to_owned(), record);
                proof {
                    assert(self@ =~= old(self)@.insert(
                        username@,
                        CachedUserV { auth_key: auth_key@, admin },
                    ));
                }
                auth_key
            },
        }
    }

    /// Ends the session: fails with `NotLoggedIn` where no record exists,
    /// with `InvalidAuthKey` where the token does not match, and otherwise
    /// removes the record. On failure the cache is unchanged.
    pub fn logout(&mut self, username: &str, auth_key: &str) -> (r: Result<(), ChatError>)
        ensures
            match r {
                Ok(_) => old(self)@.contains_key(username@) && old(self)@[username@].auth_key
                    == auth_key@ && final(self)@ == old(self)@.remove(username@),
                Err(e) => final(self)@ == old(self)@ && ((e is NotLoggedIn && !old(
                    self,
                )@.contains_key(username@)) || (e is InvalidAuthKey && old(self)@.contains_key(
                    username@,
                ) && old(self)@[username@].auth_key != auth_key@)),
            },
    {
        let key_owned: String = auth_key.to_owned();
        match self.users.get(username) {
            Some(cached) => {
                if !(cached.auth_key == key_owned) {
                    return Err(ChatError::InvalidAuthKey);
                }
            },
            None => {
                return Err(ChatError::NotLoggedIn);
            },
        }
        self.users.remove(username);
        proof {
            assert(self@ =~= old(self)@.remove(username@));
        }
        Ok(())
    }

    /// Validates a presented pair without changing the cache.
    pub fn check(&self, username: &str, auth_key: &str) -> (r: UserConnectionStatus)
        ensures
            r == spec_check(self@, username@, auth_key@),
    {
        let key_owned: String = auth_key.to_owned();
        match self.users.get(username) {
            Some(cached) => {
                if cached.auth_key == key_owned {
                    UserConnectionStatus::Connected(cached.admin)
                } else {
                    UserConnectionStatus::AuthFailed
                }
            },
            None => UserConnectionStatus::NotLoggedIn,
        }
    }
}

/// Issuing a token is idempotent: whatever fresh tokens the generator
/// would supply on each call, a second login for the same username
/// returns exactly the token the first login returned.
pub proof fn lemma_login_idempotent(
    m: Map<Seq<char>, CachedUserV>,
    u: Seq<char>,
    admin1: bool,
    admin2: bool,
    fresh1: Seq<char>,
    fresh2: Seq<char>,
)
    ensures
        spec_login_key(spec_login_map(m, u, admin1, fresh1), u, fresh2) == spec_login_key(
            m,
            u,
            fresh1,
        ),
{
}

/// A token issued by login validates as `Connected` with the admin flag
/// the session holds: the flag supplied at this login for a new username,
/// or the one already stored for a known one. Any other token is refused
/// as `AuthFailed`, and a username that never logged in as `NotLoggedIn`.
pub proof fn lemma_check_after_login(
    m: Map<Seq<char>, CachedUserV>,
    u: Seq<char>,
    admin: bool,
    fresh: Seq<char>,
    k: Seq<char>,
)
    ensures
        ({
            let cache = spec_login_map(m, u, admin, fresh);
            let issued = spec_login_key(m, u, fresh);
            let session_admin = if m.contains_key(u) {
                m[u].admin
            } else {
                admin
            };
            &&& spec_check(cache, u, issued) == UserConnectionStatus::Connected(session_admin)
            &&& k != issued ==> spec_check(cache, u, k) == UserConnectionStatus::AuthFailed
        }),
{
}

/// For a username that had no session yet, the token its first login
/// issues validates as `Connected` with exactly the admin flag supplied
/// at that login, and any other token is refused as `AuthFailed`.
/// (For a username already cached the stored flag wins instead, which
/// idempotent issuance forces; the preceding lemma states that case.)
pub proof fn lemma_check_after_first_login(
    m: Map<Seq<char>, CachedUserV>,
    u: Seq<char>,
    admin: bool,
    fresh: Seq<char>,
    k: Seq<char>,
)
    requires
        !m.contains_key(u),
    ensures
        ({
            let cache = spec_login_map(m, u, admin, fresh);
            &&& spec_login_key(m, u, fresh) == fresh
            &&& spec_check(cache, u, fresh) == UserConnectionStatus::Connected(admin)
            &&& k != fresh ==> spec_check(cache, u, k) == UserConnectionStatus::AuthFailed
        }),
{
}

/// A username with no session record is reported as `NotLoggedIn`,
/// whatever token is presented.
pub proof fn lemma_check_unknown_user(m: Map<Seq<char>, CachedUserV>, u: Seq<char>, k: Seq<char>)
    requires
        !m.contains_key(u),
    ensures
        spec_check(m, u, k) == UserConnectionStatus::NotLoggedIn,
{
}

/// A logout that succeeds leaves the cache without the record, so a
/// check for the same username right after answers `NotLoggedIn`.
pub proof fn lemma_check_after_logout(m: Map<Seq<char>, CachedUserV>, u: Seq<char>, k: Seq<char>)
    ensures
        spec_check(m.remove(u), u, k) == UserConnectionStatus::NotLoggedIn,
{
}

/// Seconds a presence record survives after its last heartbeat.
pub const EXPIRATION_SECONDS: i64 = 30;

/// One presence record: who contacted the server recently.
#[derive(Debug)]
pub struct ConnectedUser {
    pub username: String,
    /// Whether the last heartbeat carried a valid token.
    pub logged_in: bool,
    /// Updated only when the client reports itself active.
    pub last_active: i64,
    /// Updated on every heartbeat; drives expiry.
    pub last_answer: i64,
}

/// The mathematical content of a presence record.
pub ghost struct ConnectedUserV {
    pub username: Seq<char>,
    pub logged_in: bool,
    pub last_active: i64,
    pub last_answer: i64,
}

impl View for ConnectedUser {
    type V = ConnectedUserV;

    open spec fn view(&self) -> ConnectedUserV {
        ConnectedUserV {
            username: self.username@,
            logged_in: self.logged_in,
            last_active: self.last_active,
            last_answer: self.last_answer,
        }
    }
}

impl ConnectedUser {
    /// A content-equal copy of the record.
    fn duplicate(&self) -> (r: ConnectedUser)
        ensures
            r@ == self@,
    {
        ConnectedUser {
            username: self.username.clone(),
            logged_in: self.logged_in,
            last_active: self.last_active,
            last_answer: self.last_answer,
        }
    }
}

pub open spec fn spec_has_user(s: Seq<ConnectedUserV>, u: Seq<char>) -> bool {
    exists|i: int| 0 <= i < s.len() && s[i].username == u
}

pub open spec fn spec_user_index(s: Seq<ConnectedUserV>, u: Seq<char>) -> int {
    choose|i: int| 0 <= i < s.len() && s[i].username == u
}

pub open spec fn spec_distinct_usernames(s: Seq<ConnectedUserV>) -> bool {
    forall|i: int, j: int| 0 <= i < j < s.len() ==> s[i].username != s[j].username
}

/// Whether a record survives a sweep performed at time `now`.
pub open spec fn spec_retained(c: ConnectedUserV, now: i64) -> bool {
    c.last_answer > now - EXPIRATION_SECONDS
}

/// The tracker's contents after a sweep at time `now`: exactly the
/// records whose last heartbeat is within the expiration window, in
/// the order they already had.
pub open spec fn spec_sweep(s: Seq<ConnectedUserV>, now: i64) -> Seq<ConnectedUserV> {
    s.filter(|c: ConnectedUserV| spec_retained(c, now))
}

/// The tracker's contents after a heartbeat for `u` at time `now`:
/// a known username's record is rewritten in place (`last_answer`
/// always, `last_active` only when the client reports activity, the
/// logged-in flag unconditionally); an unknown one is appended with
/// both clocks set to `now`.
pub open spec fn spec_update_presence(
    s: Seq<ConnectedUserV>,
    u: Seq<char>,
    logged_in: bool,
    active: bool,
    now: i64,
) -> Seq<ConnectedUserV> {
    if spec_has_user(s, u) {
        let i = spec_user_index(s, u);
        s.update(
            i,
            ConnectedUserV {
                username: u,
                logged_in,
                last_active: if active {
                    now
                } else {
                    s[i].last_active
                },
                last_answer: now,
            },
        )
    } else {
        s.push(ConnectedUserV { username: u, logged_in, last_active: now, last_answer: now })
    }
}

/// The presence tracker: a best-effort view of who has contacted the
/// server recently, updated on every heartbeat and swept periodically.
pub struct ConnectedUsers {
    users: Vec<ConnectedUser>,
    expiration_time: i64,
}

impl View for ConnectedUsers {
    type V = Seq<ConnectedUserV>;

    closed spec fn view(&self) -> Seq<ConnectedUserV> {
        self.users@.map_values(|c: ConnectedUser| c@)
    }
}

impl ConnectedUsers {
    /// The tracker's internal invariant: one record per username, and
    /// the expiration window fixed at thirty seconds.
    pub closed spec fn well_formed(&self) -> bool {
        spec_distinct_usernames(self@) && self.expiration_time == EXPIRATION_SECONDS
    }

    pub fn new() -> (r: ConnectedUsers)
        ensures
            r@ == Seq::<ConnectedUserV>::empty(),
            r.well_formed(),
    {
        let r = ConnectedUsers { users: Vec::with_capacity(8), expiration_time: EXPIRATION_SECONDS };
        proof {
            assert(r@ =~= Seq::<ConnectedUserV>::empty());
        }
        r
    }

    /// Records a heartbeat: an idempotent upsert keyed on the username.
    pub fn update(&mut self, username: &str, logged_in: bool, active: bool, now: i64)
        requires
            old(self).well_formed(),
        ensures
            final(self).well_formed(),
            final(self)@ == spec_update_presence(old(self)@, username@, logged_in, active, now),
            spec_distinct_usernames(final(self)@),
    {
        let ghost s0 = self@;
        let uname: String = username.to_owned();
        let n = self.users.len();
        let mut i: usize = 0;
        while i < n
            invariant
                *self == *old(self),
                s0 == self@,
                n == self.users@.len(),
                0 <= i <= n,
                uname@ == username@,
                old(self).well_formed(),
                spec_distinct_usernames(s0),
                forall|j: int| 0 <= j < i ==> s0[j].username != username@,
            decreases n - i,
        {
            if self.users[i].username == uname {
                proof {
                    assert(spec_distinct_usernames(s0));
                    assert(s0[i as int].username == username@);
                    assert(spec_has_user(s0, username@));
                    let j = spec_user_index(s0, username@);
                    assert(0 <= j < s0.len() && s0[j].username == username@);
                    if j < i as int {
                        assert(s0[j].username != s0[i as int].username);
                        assert(false);
                    } else if j > i as int {
                        assert(s0[i as int].username != s0[j].username);
                        assert(false);
                    }
                }
                let rec = vstd::std_specs::vec::vec_index_mut(&mut self.users, i);
                rec.logged_in = logged_in;
                if active {
                    rec.last_active = now;
                }
                rec.last_answer = now;
                proof {
                    assert(self@ =~= spec_update_presence(s0, username@, logged_in, active, now));
                    assert forall|p: int, q: int| 0 <= p < q < self@.len() implies self@[p].username
                        != self@[q].username by {
                        assert(s0[p].username != s0[q].username);
                        assert(self@[p].username == s0[p].username);
                        assert(self@[q].username == s0[q].username);
                    }
                }
                return;
            }
            i += 1;
        }
        self.users.push(
            ConnectedUser { username: uname, logged_in, last_active: now, last_answer: now },
        );
        proof {
            assert(!spec_has_user(s0, username@));
            assert(self@ =~= spec_update_presence(s0, username@, logged_in, active, now));
        }
    }

    /// Sweeps out every record whose last heartbeat fell out of the
    /// expiration window; the only operation that shrinks the map.
    pub fn refresh(&mut self, now: i64)
        requires
            old(self).well_formed(),
        ensures
            final(self).well_formed(),
            final(self)@ == spec_sweep(old(self)@, now),
            spec_distinct_usernames(final(self)@),
    {
        let ghost s0 = self@;
        let ghost pred = |c: ConnectedUserV| spec_retained(c, now);
        let mut kept: Vec<ConnectedUser> = Vec::new();
        let n = self.users.len();
        let mut i: usize = 0;
        while i < n
            invariant
                *self == *old(self),
                s0 == self@,
                n == self.users@.len(),
                0 <= i <= n,
                pred == (|c: ConnectedUserV| spec_retained(c, now)),
                kept@.map_values(|c: ConnectedUser| c@) == s0.take(i as int).filter(pred),
            decreases n - i,
        {
            let ghost kept_before = kept@.map_values(|c: ConnectedUser| c@);
            let keep = (self.users[i].last_answer as i128) > (now as i128) - (
            EXPIRATION_SECONDS as i128);
            if keep {
                kept.push((&self.users[i]).duplicate());
            }
            proof {
                reveal(Seq::filter);
                let t1 = s0.take(i + 1);
                assert(t1.drop_last() =~= s0.take(i as int));
                assert(t1.last() == s0[i as int]);
                assert(t1.filter(pred) == if pred(s0[i as int]) {
                    s0.take(i as int).filter(pred).push(s0[i as int])
                } else {
                    s0.take(i as int).filter(pred)
                });
                if keep {
                    assert(kept@.map_values(|c: ConnectedUser| c@) =~= kept_before.push(
                        s0[i as int],
                    ));
                }
            }
            i += 1;
        }
        proof {
            assert(s0.take(n as int) =~= s0);
            lemma_filter_distinct(s0, pred);
        }
        self.users = kept;
    }

    /// A point-in-time snapshot of the records; callers must not rely
    /// on the order.
    pub fn as_vec(&self) -> (r: Vec<ConnectedUser>)
        ensures
            r@.map_values(|c: ConnectedUser| c@) == self@,
    {
        let mut r: Vec<ConnectedUser> = Vec::new();
        let n = self.users.len();
        let mut i: usize = 0;
        while i < n
            invariant
                n == self.users@.len(),
                0 <= i <= n,
                r@.map_values(|c: ConnectedUser| c@) == self@.take(i as int),
            decreases n - i,
        {
            let ghost before = r@.map_values(|c: ConnectedUser| c@);
            r.push((&self.users[i]).duplicate());
            proof {
                assert(r@.map_values(|c: ConnectedUser| c@) =~= before.push(self@[i as int]));
                assert(self@.take(i + 1) =~= before.push(self@[i as int]));
            }
            i += 1;
        }
        proof {
            assert(self@.take(n as int) =~= self@);
        }
        r
    }
}

/// Filtering the records keeps the one-record-per-username shape, and
/// every surviving username was present before the filter.
proof fn lemma_filter_distinct(s: Seq<ConnectedUserV>, pred: spec_fn(ConnectedUserV) -> bool)
    requires
        spec_distinct_usernames(s),
    ensures
        spec_distinct_usernames(s.filter(pred)),
        forall|i: int|
            0 <= i < s.filter(pred).len() ==> spec_has_user(s, #[trigger] s.filter(pred)[i].username),
    decreases s.len(),
{
    reveal(Seq::filter);
    if s.len() > 0 {
        let rest = s.drop_last();
        assert(spec_distinct_usernames(rest)) by {
            assert forall|i: int, j: int| 0 <= i < j < rest.len() implies rest[i].username
                != rest[j].username by {
                assert(rest[i] == s[i] && rest[j] == s[j]);
            }
        }
        lemma_filter_distinct(rest, pred);
        let f = s.filter(pred);
        let fr = rest.filter(pred);
        assert forall|i: int| 0 <= i < f.len() implies spec_has_user(
            s,
            #[trigger] f[i].username,
        ) by {
            if pred(s.last()) && i == f.len() - 1 {
                assert(f[i] == s.last());
                assert(s[s.len() - 1].username == f[i].username);
            } else {
                assert(f[i] == fr[i]);
                assert(spec_has_user(rest, fr[i].username));
                let j = choose|j: int| 0 <= j < rest.len() && rest[j].username == fr[i].username;
                assert(s[j].username == fr[i].username);
            }
        }
        assert forall|i: int, j: int| 0 <= i < j < f.len() implies f[i].username
            != f[j].username by {
            if pred(s.last()) && j == f.len() - 1 {
                assert(f[i] == fr[i]);
                assert(spec_has_user(rest, fr[i].username));
                let m = choose|m: int| 0 <= m < rest.len() && rest[m].username == fr[i].username;
                assert(s[m].username == fr[i].username);
                assert(s[m].username != s[s.len() - 1].username);
                assert(f[j] == s.last());
            } else {
                assert(f[i] == fr[i] && f[j] == fr[j]);
            }
        }
    }
}

/// A heartbeat followed by a sweep within the expiration window retains
/// the user's record; a sweep once the window has elapsed removes it.
pub proof fn lemma_presence_expiry(
    s: Seq<ConnectedUserV>,
    u: Seq<char>,
    logged_in: bool,
    active: bool,
    t_update: i64,
    t_sweep: i64,
)
    requires
        spec_distinct_usernames(s),
    ensures
        t_sweep - t_update < EXPIRATION_SECONDS ==> spec_has_user(
            spec_sweep(spec_update_presence(s, u, logged_in, active, t_update), t_sweep),
            u,
        ),
        t_sweep - t_update >= EXPIRATION_SECONDS ==> !spec_has_user(
            spec_sweep(spec_update_presence(s, u, logged_in, active, t_update), t_sweep),
            u,
        ),
{
    let s1 = spec_update_presence(s, u, logged_in, active, t_update);
    let pred = |c: ConnectedUserV| spec_retained(c, t_sweep);
    let s2 = s1.filter(pred);
    assert(s2 == spec_sweep(s1, t_sweep));
    let idx = if spec_has_user(s, u) {
        spec_user_index(s, u)
    } else {
        s.len() as int
    };
    assert(0 <= idx < s1.len() && s1[idx].username == u && s1[idx].last_answer == t_update);
    assert(spec_distinct_usernames(s1)) by {
        assert forall|i: int, j: int| 0 <= i < j < s1.len() implies s1[i].username
            != s1[j].username by {
            if spec_has_user(s, u) {
                assert(s1[i].username == s[i].username && s1[j].username == s[j].username);
            } else {
                if j < s.len() {
                    assert(s1[i].username == s[i].username && s1[j].username == s[j].username);
                } else {
                    assert(s1[j].username == u);
                    assert(s1[i].username == s[i].username);
                    assert(!spec_has_user(s, u));
                    if s[i].username == u {
                        assert(spec_has_user(s, u));
                    }
                }
            }
        }
    }
    if t_sweep - t_update < EXPIRATION_SECONDS {
        assert(pred(s1[idx]));
        s1.lemma_filter_contains(pred, idx);
        assert(s2.contains(s1[idx]));
        let j = choose|j: int| 0 <= j < s2.len() && s2[j] == s1[idx];
        assert(s2[j].username == u);
    } else {
        if spec_has_user(s2, u) {
            let j = choose|j: int| 0 <= j < s2.len() && s2[j].username == u;
            s1.lemma_filter_pred(pred, j);
            assert(pred(s2[j]));
            assert(s2.contains(s2[j]));
            s1.lemma_filter_contains_rev(pred, s2[j]);
            assert(s1.contains(s2[j]));
            let m = choose|m: int| 0 <= m < s1.len() && s1[m] == s2[j];
            assert(s1[m].username == u);
            if m != idx {
                assert(s1[m].username != s1[idx].username);
            }
            assert(s2[j].last_answer == t_update);
            assert(!pred(s2[j]));
        }
    }
}

} // verus!
