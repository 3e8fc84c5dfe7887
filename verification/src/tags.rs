//! The tag bitfield carried by every message.
//!
//! Layout, bit 0 being least significant:
//! - bit 0: `logged_in`, set by the server only, never trusted from a client;
//! - bit 1: `generated`, the message was derived from another message;
//! - bit 2: `bot`, the message was written by an automated agent;
//! - bit 3: `no_notif`, notification rules are suppressed for it;
//! - bits 4 to 7: `show_value`, a four-bit display hint where 0 means
//!   no change, 1 to 4 mean increasingly hidden, 9 to 12 increasingly
//!   important, and the remaining codes are reserved and read as 0;
//! - every bit above bit 7 is reserved and masked to zero on accepted
//!   input.

use vstd::prelude::*;

verus! {

/// The tag bits a client is allowed to set: bits 1 through 7.
/// Bit 0 is server-owned and everything above bit 7 is reserved,
/// so both are cleared from client-supplied values.
pub const CLIENT_TAG_MASK: i32 = 0xfe;

pub const TAG_LOGGED_IN: i32 = 0x1;

pub const TAG_GENERATED: i32 = 0x2;

pub const TAG_BOT: i32 = 0x4;

pub const TAG_NO_NOTIF: i32 = 0x8;

/// What a client-suggested tag value becomes before the server uses it.
pub open spec fn spec_clean_client_tags(tags: i32) -> i32 {
    tags & CLIENT_TAG_MASK
}

/// Clears the server-owned bit 0 and the reserved high bits from a
/// client-suggested tag value; the remaining bits pass through unchanged.
pub fn clean_client_tags(tags: i32) -> (r: i32)
    ensures
        r == spec_clean_client_tags(tags),
        r & TAG_LOGGED_IN == 0,
{
    proof {
        assert(tags & 0xfei32 & 0x1i32 == 0) by (bit_vector);
    }
    tags & CLIENT_TAG_MASK
}

/// Marks the message as written while logged in; every other bit is kept.
pub fn set_logged_in(tags: i32) -> (r: i32)
    ensures
        r == tags | TAG_LOGGED_IN,
        spec_logged_in(r),
{
    proof {
        assert((tags | 0x1i32) & 0x1i32 == 1) by (bit_vector);
    }
    tags | TAG_LOGGED_IN
}

pub open spec fn spec_logged_in(tags: i32) -> bool {
    tags & TAG_LOGGED_IN == TAG_LOGGED_IN
}

pub open spec fn spec_generated(tags: i32) -> bool {
    tags & TAG_GENERATED == TAG_GENERATED
}

pub open spec fn spec_bot(tags: i32) -> bool {
    tags & TAG_BOT == TAG_BOT
}

pub open spec fn spec_no_notif(tags: i32) -> bool {
    tags & TAG_NO_NOTIF == TAG_NO_NOTIF
}

pub fn logged_in(tags: i32) -> (r: bool)
    ensures
        r == spec_logged_in(tags),
{
    tags & TAG_LOGGED_IN == TAG_LOGGED_IN
}

pub fn generated(tags: i32) -> (r: bool)
    ensures
        r == spec_generated(tags),
{
    tags & TAG_GENERATED == TAG_GENERATED
}

pub fn bot(tags: i32) -> (r: bool)
    ensures
        r == spec_bot(tags),
{
    tags & TAG_BOT == TAG_BOT
}

pub fn no_notif(tags: i32) -> (r: bool)
    ensures
        r == spec_no_notif(tags),
{
    tags & TAG_NO_NOTIF == TAG_NO_NOTIF
}

/// The raw four-bit code held in bits 4 to 7.
pub open spec fn spec_raw_show_value(tags: i32) -> i32 {
    (tags >> 4i32) & 0xfi32
}

/// The display hint a compliant reader obeys: the raw code where it is
/// an assigned one (1 to 4 hidden, 9 to 12 important), and 0 (no change)
/// where the code is 0 or reserved (5 to 8, 13 to 15).
pub open spec fn spec_show_value(tags: i32) -> i32 {
    let raw = spec_raw_show_value(tags);
    if (1 <= raw <= 4) || (9 <= raw <= 12) {
        raw
    } else {
        0
    }
}

/// Decodes the display hint, mapping every reserved code to 0.
pub fn show_value(tags: i32) -> (r: i32)
    ensures
        r == spec_show_value(tags),
{
    proof {
        assert(0 <= (tags >> 4i32) & 0xfi32 <= 15) by (bit_vector);
    }
    let raw = (tags >> 4i32) & 0xfi32;
    if (1 <= raw && raw <= 4) || (9 <= raw && raw <= 12) {
        raw
    } else {
        0
    }
}

pub open spec fn spec_encode_show_value(v: i32) -> i32 {
    (v & 0xfi32) << 4i32
}

/// Places a display hint in bits 4 to 7, leaving every other bit zero.
pub fn encode_show_value(v: i32) -> (r: i32)
    requires
        0 <= v <= 15,
    ensures
        r == spec_encode_show_value(v),
        spec_raw_show_value(r) == v,
        r & 0xf0i32 == r,
{
    proof {
        lemma_show_value_round_trip(v);
    }
    (v & 0xfi32) << 4i32
}

/// Round trip of the display hint: a code written into bits 4 to 7 is
/// read back unchanged, and the encoding touches no other bit.
pub proof fn lemma_show_value_round_trip(v: i32)
    by (bit_vector)
    requires
        0 <= v <= 15,
    ensures
        spec_raw_show_value(spec_encode_show_value(v)) == v,
        spec_encode_show_value(v) & 0xf0i32 == spec_encode_show_value(v),
{
}

/// Cleaning a client value always clears the logged-in bit, and the bit is
/// set afterwards exactly by the server's own marking; neither step touches
/// the client-owned bits.
pub proof fn lemma_logged_in_server_owned(tags: i32)
    by (bit_vector)
    ensures
        !spec_logged_in(spec_clean_client_tags(tags)),
        spec_logged_in(spec_clean_client_tags(tags) | TAG_LOGGED_IN),
        spec_clean_client_tags(tags) | TAG_LOGGED_IN == spec_clean_client_tags(tags) + 1,
        (spec_clean_client_tags(tags) | TAG_LOGGED_IN) & CLIENT_TAG_MASK == spec_clean_client_tags(
            tags,
        ),
{
}

} // verus!
