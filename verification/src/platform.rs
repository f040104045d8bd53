//! Text forms that the platform's own crates compute. Each function here is
//! trusted: Verus takes its contract as given and does not read its body.

use vstd::prelude::*;

verus! {

/// Padded, standard-alphabet base64 of a byte string, as `base64::encode` writes it.
pub uninterp spec fn base64_text(bytes: Seq<u8>) -> Seq<char>;

/// Display form of a microsecond timestamp, as `Timestamp`'s `Display` impl writes it:
/// RFC 3339 in UTC where the type can turn the count into a date of the years
/// 0000 to 9999, and the count of microseconds in parentheses where it cannot.
pub uninterp spec fn timestamp_text(micros: int) -> Seq<char>;

/// Display form of a 39-byte platform hash, as `holo_hash_encode` writes it:
/// the letter `u` followed by unpadded URL-safe base64 of the bytes.
pub uninterp spec fn hash_text(raw: Seq<u8>) -> Seq<char>;

/// What `CloneId::try_from` makes of a role name: the clone id in normal form
/// (role name, a dot, the clone index) or nothing when the name is refused.
pub uninterp spec fn clone_id_text(name: Seq<char>) -> Option<Seq<char>>;

/// Calls `base64::encode`. Trusted: the result is the base64 text of exactly
/// these bytes. The call cannot overflow its buffer computation, because no
/// slice is longer than `isize::MAX` bytes.
#[verifier::external_body]
#[allow(deprecated)]
pub(crate) fn encode_base64(bytes: &[u8]) -> (text: String)
    ensures
        text@ == base64_text(bytes@),
{
    base64::encode(bytes)
}

/// Calls `Timestamp::from_micros` and the type's `Display` impl. Trusted: the
/// result is the display form of exactly this count of microseconds. The impl
/// falls back to the raw count where the date cannot be written, so it
/// returns for every `i64`.
#[verifier::external_body]
pub(crate) fn display_timestamp(micros: i64) -> (text: String)
    ensures
        text@ == timestamp_text(micros as int),
{
    hdk::prelude::Timestamp::from_micros(micros).to_string()
}

/// Calls `holo_hash::holo_hash_encode`, which the `Display` impl of every
/// platform hash goes through. Trusted: the result is the display form of
/// exactly these bytes.
#[verifier::external_body]
pub(crate) fn display_hash(raw: &[u8]) -> (text: String)
    ensures
        text@ == hash_text(raw@),
{
    hdk::prelude::holo_hash::holo_hash_encode(raw)
}

/// Calls `CloneId::try_from` on a copy of the role name. Trusted: the result
/// is `Some` with the clone id's text exactly when the platform accepts the
/// name (one dot, followed by an index that parses as `u32`).
#[verifier::external_body]
pub(crate) fn parse_clone_id(name: &str) -> (id: Option<String>)
    ensures
        match id {
            Some(text) => clone_id_text(name@) == Some(text@),
            None => clone_id_text(name@) is None,
        },
{
    match hdk::prelude::CloneId::try_from(name.to_string()) {
        Ok(id) => Some(id.0),
        Err(_) => None,
    }
}

} // verus!
