//! Segment identifiers: minting fresh time-ordered ids and moving between
//! their integer, text and byte forms, through the uuid crate.

use vstd::prelude::*;

verus! {

/// The big-endian integer reading of a byte sequence.
pub open spec fn be_val(s: Seq<u8>) -> int
    decreases s.len(),
{
    if s.len() == 0 {
        0
    } else {
        be_val(s.drop_last()) * 256 + s.last()
    }
}

/// The value the uuid crate parses from a piece of text, if any.
pub uninterp spec fn uuid_of(s: Seq<char>) -> Option<u128>;

/// The canonical hyphenated text of a 128-bit identifier.
pub uninterp spec fn uuid_text_of(v: u128) -> Seq<char>;

/// Relies on `uuid::Uuid::now_v7`: a freshly minted time-ordered
/// identifier.  The version nibble it sets is 7, which makes the value
/// non-nil.
#[verifier::external_body]
pub(crate) fn mint_segment_id() -> (r: u128)
    ensures
        (r >> 76) & 0xf == 7,
        r != 0,
{
    uuid::Uuid::now_v7().as_u128()
}

/// Relies on `uuid::Uuid::try_parse`: the parsed value depends on the text
/// alone.
#[verifier::external_body]
pub(crate) fn uuid_parse(s: &str) -> (r: Option<u128>)
    ensures
        r == uuid_of(s@),
{
    uuid::Uuid::try_parse(s).ok().map(|u| u.as_u128())
}

/// Relies on `uuid::fmt::Hyphenated`: the canonical text is 36 characters
/// of hex digits and hyphens, which `uuid::Uuid::try_parse` reads back as
/// the same value.
#[verifier::external_body]
pub(crate) fn uuid_format(v: u128) -> (r: String)
    ensures
        r@ == uuid_text_of(v),
        r@.len() == 36,
        forall|i: int| 0 <= i < r@.len() ==> r@[i] != '/',
        forall|i: int| 0 <= i < r@.len() ==> r@[i] != '.',
        uuid_of(r@) == Some(v),
{
    uuid::Uuid::from_u128(v).as_hyphenated().to_string()
}

/// Relies on `uuid::Uuid::from_slice` and `uuid::Uuid::as_u128`: a
/// 16-byte slice is read as the big-endian 128-bit value, and any other
/// length is refused.
#[verifier::external_body]
pub(crate) fn uuid_from_bytes(b: &Vec<u8>) -> (r: Option<u128>)
    ensures
        match r {
            Some(v) => b@.len() == 16 && v == be_val(b@),
            None => b@.len() != 16,
        },
{
    uuid::Uuid::from_slice(b.as_slice()).ok().map(|u| u.as_u128())
}

/// Relies on `uuid::Uuid::into_bytes`: the big-endian 16-byte form of the
/// value.
#[verifier::external_body]
pub(crate) fn uuid_to_bytes(v: u128) -> (r: Vec<u8>)
    ensures
        r@.len() == 16,
        be_val(r@) == v,
{
    uuid::Uuid::from_u128(v).into_bytes().to_vec()
}

} // verus!
