//! The service core: it owns the session cache and the presence
//! tracker, applies the authorization policy for submitting and deleting
//! messages, and prepares the values the durable store receives.
//!
//! The store itself is an external collaborator: callers run its
//! queries and hand the plain results (a username count, a stored user
//! row) to the decision functions here, which are verified for every
//! such result.

use vstd::prelude::*;
use vstd::string::StrSliceExecFns;
use crate::error::ChatError;
use crate::message::{NewMessage, duplicate_opt_string};
use crate::tags::{clean_client_tags, set_logged_in, spec_clean_client_tags, TAG_LOGGED_IN};
use crate::user::{
    CachedUsers, CachedUserV, ConnectedUser, ConnectedUsers, ConnectedUserV, spec_check,
    spec_login_key, spec_login_map, spec_update_presence, UserConnectionStatus,
};

verus! {

/// What the SHA-512 of a string renders to in hexadecimal; a function
/// of the characters alone.
pub uninterp spec fn spec_sha512_hex(s: Seq<char>) -> Seq<char>;

/// Relies on rust-crypto's `Sha512`: `input_str` feeds the string and
/// `result_str` renders the 64-byte digest as 128 lowercase hexadecimal
/// characters; the digest depends on the input alone.
#[verifier::external_body]
fn sha512_hex(password: &str) -> (r: String)
    ensures
        r@ == spec_sha512_hex(password@),
        r@.len() == 128,
{
    let mut hasher = crypto::sha2::Sha512::new();
    crypto::digest::Digest::input_str(&mut hasher, password);
    crypto::digest::Digest::result_str(&mut hasher)
}

/// The digest stored for a password: the first 64 hexadecimal
/// characters of its SHA-512.
pub open spec fn spec_password_digest(p: Seq<char>) -> Seq<char> {
    spec_sha512_hex(p).take(64)
}

/// Computes the stored form of a password; used identically at
/// registration and login time. Plaintext is never kept or compared.
pub fn password_digest(password: &str) -> (r: String)
    ensures
        r@ == spec_password_digest(password@),
{
    let hex = sha512_hex(password);
    let prefix = hex.as_str().substring_char(0, 64);
    let r = prefix.to_owned();
    proof {
        assert(r@ =~= spec_sha512_hex(password@).take(64));
    }
    r
}

/// The tag field a submission is stored with: the client's suggestion
/// with the server-owned and reserved bits cleared, and the logged-in
/// bit set exactly when the submission carried a valid token.
pub open spec fn spec_submission_tags(suggested: Option<i32>, logged_in: bool) -> i32 {
    let base = spec_clean_client_tags(
        match suggested {
            Some(t) => t,
            None => 0,
        },
    );
    if logged_in {
        base | TAG_LOGGED_IN
    } else {
        base
    }
}

/// The row handed to the store for an accepted submission; the store
/// assigns the id.
#[derive(Debug)]
pub struct PreparedMessage {
    pub username: String,
    pub timestamp: i64,
    pub content: String,
    pub tags: i32,
    pub color: Option<String>,
    pub channel: Option<String>,
}

/// The mathematical content of a prepared row.
pub ghost struct PreparedMessageV {
    pub username: Seq<char>,
    pub timestamp: i64,
    pub content: Seq<char>,
    pub tags: i32,
    pub color: Option<Seq<char>>,
    pub channel: Option<Seq<char>>,
}

impl View for PreparedMessage {
    type V = PreparedMessageV;

    open spec fn view(&self) -> PreparedMessageV {
        PreparedMessageV {
            username: self.username@,
            timestamp: self.timestamp,
            content: self.content@,
            tags: self.tags,
            color: match self.color {
                Some(c) => Some(c@),
                None => None,
            },
            channel: match self.channel {
                Some(c) => Some(c@),
                None => None,
            },
        }
    }
}

/// A stored user row, as the store's lookup returns it.
#[derive(Debug)]
pub struct StoredUser {
    pub password_digest: String,
    pub admin: bool,
}

/// What a successful registration produces: the digest the store must
/// keep and the token issued to the new session.
#[derive(Debug)]
pub struct RegisteredUser {
    pub password_digest: String,
    pub auth_key: String,
}

/// The service core. The durable store is reached by the caller, never
/// from here.
pub struct Chatbix {
    connected_users: ConnectedUsers,
    cached_users: CachedUsers,
}

impl Chatbix {
    /// The session cache's contents.
    pub closed spec fn sessions(&self) -> Map<Seq<char>, CachedUserV> {
        self.cached_users@
    }

    /// The presence tracker's contents.
    pub closed spec fn presence(&self) -> Seq<ConnectedUserV> {
        self.connected_users@
    }

    pub closed spec fn well_formed(&self) -> bool {
        self.connected_users.well_formed()
    }

    pub fn new() -> (r: Chatbix)
        ensures
            r.well_formed(),
            r.sessions() == Map::<Seq<char>, CachedUserV>::empty(),
            r.presence() == Seq::<ConnectedUserV>::empty(),
    {
        Chatbix { connected_users: ConnectedUsers::new(), cached_users: CachedUsers::new() }
    }

    /// Ends the username's session; presence is untouched.
    pub fn logout(&mut self, username: &str, auth_key: &str) -> (r: Result<(), ChatError>)
        requires
            old(self).well_formed(),
        ensures
            final(self).well_formed(),
            final(self).presence() == old(self).presence(),
            match r {
                Ok(_) => old(self).sessions().contains_key(username@) && old(self).sessions()[
                    username@
                ].auth_key == auth_key@ && final(self).sessions() == old(self).sessions().remove(
                    username@,
                ),
                Err(e) => final(self).sessions() == old(self).sessions() && ((e is NotLoggedIn
                    && !old(self).sessions().contains_key(username@)) || (e is InvalidAuthKey && old(
                    self,
                ).sessions().contains_key(username@) && old(self).sessions()[username@].auth_key
                    != auth_key@)),
            },
    {
        self.cached_users.logout(username, auth_key)
    }

    /// Runs the periodic sweep of the presence tracker.
    pub fn refresh_users(&mut self, now: i64)
        requires
            old(self).well_formed(),
        ensures
            final(self).well_formed(),
            final(self).sessions() == old(self).sessions(),
            final(self).presence() == crate::user::spec_sweep(old(self).presence(), now),
    {
        self.connected_users.refresh(now);
    }

    /// Validates a presented pair against the session cache.
    fn check_user_auth_key(&self, username: &str, auth_key: &str) -> (r: UserConnectionStatus)
        ensures
            r == spec_check(self.sessions(), username@, auth_key@),
    {
        self.cached_users.check(username, auth_key)
    }

    /// The presence snapshot alone, for a heartbeat that names no user.
    pub fn heartbeat(&self) -> (r: Vec<ConnectedUser>)
        ensures
            r@.map_values(|c: ConnectedUser| c@) == self.presence(),
    {
        self.connected_users.as_vec()
    }

    /// A heartbeat that names a user: the user is recorded as present,
    /// logged in exactly when the supplied token validates. Bad or
    /// missing credentials never fail a heartbeat; they only mean the
    /// user is recorded as not logged in.
    pub fn heartbeat_mut(
        &mut self,
        username: &str,
        auth_key: Option<&str>,
        active: bool,
        now: i64,
    ) -> (r: Result<Vec<ConnectedUser>, ChatError>)
        requires
            old(self).well_formed(),
        ensures
            final(self).well_formed(),
            final(self).sessions() == old(self).sessions(),
            ({
                let logged_in = match auth_key {
                    Some(k) => spec_check(old(self).sessions(), username@, k@) is Connected,
                    None => false,
                };
                &&& final(self).presence() == spec_update_presence(
                    old(self).presence(),
                    username@,
                    logged_in,
                    active,
                    now,
                )
                &&& (r matches Ok(v) && v@.map_values(|c: ConnectedUser| c@)
                    == final(self).presence())
            }),
    {
        let logged_in = match auth_key {
            Some(auth_key) => {
                match self.check_user_auth_key(username, auth_key) {
                    UserConnectionStatus::Connected(_) => true,
                    _ => false,
                }
            },
            None => false,
        };
        self.connected_users.update(username, logged_in, active, now);
        Ok(self.connected_users.as_vec())
    }

    /// Authorizes a deletion request: only a session that validates as
    /// admin may delete; every other outcome is the matching error. The
    /// deletion itself is the store's, run by the caller on `Ok`.
    pub fn try_del(&self, username: &str, auth_key: &str, message_id: i32) -> (r: Result<
        (),
        ChatError,
    >)
        ensures
            match r {
                Ok(_) => spec_check(self.sessions(), username@, auth_key@)
                    == UserConnectionStatus::Connected(true),
                Err(e) => {
                    let status = spec_check(self.sessions(), username@, auth_key@);
                    ||| (e is InvalidAuthKey && status is AuthFailed)
                    ||| (e is NotLoggedIn && status is NotLoggedIn)
                    ||| (e is Forbidden && status == UserConnectionStatus::Connected(false))
                },
            },
    {
        let _ = message_id;
        match self.check_user_auth_key(username, auth_key) {
            UserConnectionStatus::AuthFailed => Err(ChatError::InvalidAuthKey),
            UserConnectionStatus::NotLoggedIn => Err(ChatError::NotLoggedIn),
            UserConnectionStatus::Connected(false) => Err(ChatError::Forbidden),
            UserConnectionStatus::Connected(true) => Ok(()),
        }
    }

    /// Accepts or rejects a submission. An anonymous submission (no
    /// token) is always accepted with the logged-in bit clear; one with
    /// a token is accepted only when the token validates, and then
    /// carries the logged-in bit. The timestamp is the server's, in
    /// whole seconds.
    pub fn new_message(&self, new_message: &NewMessage, now: i64) -> (r: Result<
        PreparedMessage,
        ChatError,
    >)
        ensures
            match r {
                Ok(p) => (match new_message@.auth_key {
                    Some(k) => spec_check(self.sessions(), new_message@.username, k) is Connected,
                    None => true,
                }) && p@ == (PreparedMessageV {
                    username: new_message@.username,
                    timestamp: now,
                    content: new_message@.content,
                    tags: spec_submission_tags(
                        new_message@.tags,
                        new_message@.auth_key is Some,
                    ),
                    color: new_message@.color,
                    channel: new_message@.channel,
                }),
                Err(e) => {
                    &&& new_message@.auth_key matches Some(k)
                    &&& {
                        let status = spec_check(self.sessions(), new_message@.username, k);
                        ||| (e is NotLoggedIn && status is NotLoggedIn)
                        ||| (e is InvalidAuthKey && status is AuthFailed)
                    }
                },
            },
    {
        let suggested = match new_message.tags {
            Some(t) => t,
            None => 0,
        };
        let mut tags = clean_client_tags(suggested);
        match &new_message.auth_key {
            Some(auth_key) => {
                match self.cached_users.check(
                    new_message.username.as_str(),
                    auth_key.as_str(),
                ) {
                    UserConnectionStatus::NotLoggedIn => {
                        return Err(ChatError::NotLoggedIn);
                    },
                    UserConnectionStatus::AuthFailed => {
                        return Err(ChatError::InvalidAuthKey);
                    },
                    UserConnectionStatus::Connected(_) => {
                        tags = set_logged_in(tags);
                    },
                }
            },
            None => {},
        }
        Ok(
            PreparedMessage {
                username: new_message.username.clone(),
                timestamp: now,
                content: new_message.content.clone(),
                tags,
                color: duplicate_opt_string(&new_message.color),
                channel: duplicate_opt_string(&new_message.channel),
            },
        )
    }

    /// Registers a username. `existing_count` is the store's count of
    /// users under that name: any non-zero count is a conflict that
    /// changes nothing and issues no token. Otherwise the password
    /// digest to store is produced and a session is opened as non-admin.
    pub fn register(&mut self, username: &str, password: &str, existing_count: i64) -> (r: Result<
        RegisteredUser,
        ChatError,
    >)
        requires
            old(self).well_formed(),
        ensures
            final(self).well_formed(),
            final(self).presence() == old(self).presence(),
            match r {
                Ok(out) => existing_count == 0 && out.password_digest@ == spec_password_digest(
                    password@,
                ) && final(self).sessions() == spec_login_map(
                    old(self).sessions(),
                    username@,
                    false,
                    out.auth_key@,
                ) && out.auth_key@ == spec_login_key(
                    old(self).sessions(),
                    username@,
                    out.auth_key@,
                ) && (!old(self).sessions().contains_key(username@) ==> out.auth_key@.len()
                    == crate::user::AUTH_KEY_LEN && (forall|i: int|
                    0 <= i < out.auth_key@.len() ==> crate::user::spec_token_char(
                        #[trigger] out.auth_key@[i],
                    ))),
                Err(e) => e is UsernameInUse && existing_count != 0 && final(self).sessions()
                    == old(self).sessions(),
            },
    {
        if existing_count == 0 {
            let digest = password_digest(password);
            let auth_key = self.cached_users.login(username, false);
            Ok(RegisteredUser { password_digest: digest, auth_key })
        } else {
            Err(ChatError::UsernameInUse)
        }
    }

    /// Logs a user in against the stored row the caller looked up:
    /// succeeds exactly when a row exists and its digest matches the
    /// supplied password's digest, opening a session with the stored
    /// admin flag; otherwise the credentials are invalid and nothing
    /// changes.
    pub fn login(&mut self, username: &str, password: &str, stored: Option<StoredUser>) -> (r:
        Result<String, ChatError>)
        requires
            old(self).well_formed(),
        ensures
            final(self).well_formed(),
            final(self).presence() == old(self).presence(),
            match r {
                Ok(key) => {
                    &&& stored matches Some(u)
                    &&& u.password_digest@ == spec_password_digest(password@)
                    &&& final(self).sessions() == spec_login_map(
                        old(self).sessions(),
                        username@,
                        u.admin,
                        key@,
                    )
                    &&& key@ == spec_login_key(old(self).sessions(), username@, key@)
                    &&& (!old(self).sessions().contains_key(username@) ==> key@.len()
                        == crate::user::AUTH_KEY_LEN && (forall|i: int|
                        0 <= i < key@.len() ==> crate::user::spec_token_char(
                            #[trigger] key@[i],
                        )))
                },
                Err(e) => {
                    &&& e is InvalidCredentials
                    &&& final(self).sessions() == old(self).sessions()
                    &&& match stored {
                        Some(u) => u.password_digest@ != spec_password_digest(password@),
                        None => true,
                    }
                },
            },
    {
        match stored {
            Some(user) => {
                let digest = password_digest(password);
                if user.password_digest == digest {
                    Ok(self.cached_users.login(username, user.admin))
                } else {
                    Err(ChatError::InvalidCredentials)
                }
            },
            None => Err(ChatError::InvalidCredentials),
        }
    }
}

} // verus!
