//! Calls into the outside crates (`uuid`, `chrono`, `serde_json`) that the
//! library's logic makes. Everything stated here is taken on trust.
use vstd::prelude::*;
use tokio::sync::mpsc::UnboundedSender;
use crate::error::DataError;

verus! {

/// `serde_json::Value`, carried through the configuration stores as an
/// opaque value.
#[verifier::external_type_specification]
#[verifier::external_body]
pub struct ExValue(serde_json::Value);

/// Whether `c` is a lowercase hexadecimal digit.
pub open spec fn is_lower_hex(c: char) -> bool {
    ('0' <= c && c <= '9') || ('a' <= c && c <= 'f')
}

/// Whether position `i` of a hyphenated UUID holds a hyphen.
pub open spec fn is_uuid_hyphen_pos(i: int) -> bool {
    i == 8 || i == 13 || i == 18 || i == 23
}

/// The text of a UUID in hyphenated lowercase form: 36 characters,
/// hyphens at positions 8, 13, 18 and 23, lowercase hex digits elsewhere.
pub open spec fn is_hyphenated_uuid(s: Seq<char>) -> bool {
    &&& s.len() == 36
    &&& forall|i: int| 0 <= i < 36 ==> (if is_uuid_hyphen_pos(i) {
        s[i] == '-'
    } else {
        is_lower_hex(#[trigger] s[i])
    })
}

/// A random (version 4) UUID in hyphenated form: the version digit,
/// at position 14, is `4`.
pub open spec fn is_uuid_v4_text(s: Seq<char>) -> bool {
    is_hyphenated_uuid(s) && s[14] == '4'
}

/// The nil UUID in hyphenated form: `00000000-0000-0000-0000-000000000000`.
pub open spec fn nil_uuid_text() -> Seq<char> {
    Seq::new(36, |i: int| if is_uuid_hyphen_pos(i) { '-' } else { '0' })
}

/// Calls `uuid::Uuid::new_v4()` and formats it with `to_string()`.
/// Trusted: the text is the hyphenated lowercase form (uuid's `Display`
/// goes through `LowerHex`, which writes 8-4-4-4-12 lowercase hex digits)
/// and the version digit is `4` (`new_v4` sets the version bits).
/// Which random digits come out is not stated.
#[verifier::external_body]
pub(crate) fn new_uuid_v4_string() -> (r: String)
    ensures
        is_uuid_v4_text(r@),
{
    uuid::Uuid::new_v4().to_string()
}

/// Calls `uuid::Uuid::nil()` and formats it with `to_string()`.
/// Trusted: the result is the 36-character text of the all-zero UUID,
/// as uuid's documentation of `nil` shows.
#[verifier::external_body]
pub(crate) fn nil_uuid_string() -> (r: String)
    ensures
        r@ == nil_uuid_text(),
{
    uuid::Uuid::nil().to_string()
}

/// Calls `chrono::Local::now().timestamp()`: the current time in seconds
/// since the Unix epoch. Trusted: the value is not negative (chrono's
/// `Utc::now` measures the time since the epoch as an unsigned duration and
/// panics if the system clock is set before 1970). Which value comes out
/// depends on the clock and is not stated.
#[verifier::external_body]
pub(crate) fn now_timestamp() -> (r: i64)
    ensures
        r >= 0,
{
    chrono::Local::now().timestamp()
}

/// Calls `<serde_json::Value as Clone>::clone` (derived in serde_json).
/// Trusted: the clone is the same value.
#[verifier::external_body]
pub(crate) fn clone_value(v: &serde_json::Value) -> (r: serde_json::Value)
    ensures
        r == *v,
{
    v.clone()
}

/// `tokio::sync::mpsc::UnboundedSender`, the handle by which the server
/// reaches a subscriber.
#[verifier::external_type_specification]
#[verifier::external_body]
#[verifier::reject_recursive_types(T)]
pub struct ExUnboundedSender<T>(UnboundedSender<T>);

/// Calls `UnboundedSender::send`. Whether the message is accepted depends
/// on whether the receiving side is still open, so success is not stated;
/// the only error tokio's `send` reports is a closed channel, which comes
/// back as `ChannelClosed`. (tokio aborts the process if a channel's message
/// counter overflows.)
#[verifier::external_body]
pub(crate) fn send_message<M>(sender: &UnboundedSender<M>, message: M) -> (r: Result<(), DataError>)
    ensures
        r is Err ==> r matches Err(DataError::ChannelClosed),
{
    match sender.send(message) {
        Ok(()) => Ok(()),
        Err(_) => Err(DataError::ChannelClosed),
    }
}

/// Calls `<UnboundedSender as Clone>::clone`. Trusted: the clone is the
/// same handle value, another sender on the same channel (tokio's `clone`
/// copies the channel reference, `chan: self.chan.clone()`).
#[verifier::external_body]
pub(crate) fn clone_sender<M>(sender: &UnboundedSender<M>) -> (r: UnboundedSender<M>)
    ensures
        r == *sender,
{
    sender.clone()
}

} // verus!
