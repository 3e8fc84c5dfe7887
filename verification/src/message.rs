//! Message records: the stored form and the client-submitted form.

use vstd::prelude::*;

verus! {

/// A message as the store keeps it; immutable once stored.
#[derive(Debug)]
pub struct Message {
    /// Store-assigned monotonic identifier.
    pub id: i32,
    pub author: String,
    /// UTC instant, whole seconds since the epoch.
    pub timestamp: i64,
    pub content: String,
    /// Tag bitfield; see the tags module for the layout.
    pub tags: i32,
    pub color: Option<String>,
    /// `None` means the default channel.
    pub channel: Option<String>,
}

/// The mathematical content of a stored message.
pub ghost struct MessageV {
    pub id: i32,
    pub author: Seq<char>,
    pub timestamp: i64,
    pub content: Seq<char>,
    pub tags: i32,
    pub color: Option<Seq<char>>,
    pub channel: Option<Seq<char>>,
}

impl View for Message {
    type V = MessageV;

    open spec fn view(&self) -> MessageV {
        MessageV {
            id: self.id,
            author: self.author@,
            timestamp: self.timestamp,
            content: self.content@,
            tags: self.tags,
            color: match self.color {
                Some(c) => Some(c@),
                None => None,
            },
            channel: match self.channel {
                Some(c) => Some(c@),
                None => None,
            },
        }
    }
}

/// A content-equal copy of an optional string.
pub fn duplicate_opt_string(s: &Option<String>) -> (r: Option<String>)
    ensures
        (r is Some <==> s is Some),
        r matches Some(x) ==> (s matches Some(y) && x@ == y@),
{
    match s {
        Some(x) => Some(x.clone()),
        None => None,
    }
}

impl Message {
    /// A content-equal copy of the record.
    pub fn duplicate(&self) -> (r: Message)
        ensures
            r@ == self@,
    {
        Message {
            id: self.id,
            author: self.author.clone(),
            timestamp: self.timestamp,
            content: self.content.clone(),
            tags: self.tags,
            color: duplicate_opt_string(&self.color),
            channel: duplicate_opt_string(&self.channel),
        }
    }
}

/// A client-submitted message, before the server accepts it.
#[derive(Debug)]
pub struct NewMessage {
    pub username: String,
    pub content: String,
    /// Caller-suggested tag bits; bit 0 and the reserved bits are
    /// never taken over.
    pub tags: Option<i32>,
    pub color: Option<String>,
    pub channel: Option<String>,
    /// Token proving identity; absent for an anonymous submission.
    pub auth_key: Option<String>,
}

/// The mathematical content of a submission.
pub ghost struct NewMessageV {
    pub username: Seq<char>,
    pub content: Seq<char>,
    pub tags: Option<i32>,
    pub color: Option<Seq<char>>,
    pub channel: Option<Seq<char>>,
    pub auth_key: Option<Seq<char>>,
}

impl View for NewMessage {
    type V = NewMessageV;

    open spec fn view(&self) -> NewMessageV {
        NewMessageV {
            username: self.username@,
            content: self.content@,
            tags: self.tags,
            color: match self.color {
                Some(c) => Some(c@),
                None => None,
            },
            channel: match self.channel {
                Some(c) => Some(c@),
                None => None,
            },
            auth_key: match self.auth_key {
                Some(c) => Some(c@),
                None => None,
            },
        }
    }
}

} // verus!
