//! Collection identifiers: 128-bit UUIDs, parsed from and printed as text by
//! the `uuid` crate.

use vstd::prelude::*;

verus! {

/// What `uuid::Uuid::parse_str` yields for a text, as the UUID's 128-bit
/// big-endian value; `None` where it refuses the text.
pub uninterp spec fn uuid_parse(text: Seq<char>) -> Option<u128>;

/// The lower-case hexadecimal digit for `d` (0 to 15).
pub open spec fn hex_digit(d: int) -> char {
    if d < 10 {
        (d + 48) as char
    } else {
        (d + 87) as char
    }
}

/// The `k`-th hexadecimal digit of `v`, counted from the most significant
/// one (0 to 31).
pub open spec fn nibble(v: u128, k: int) -> int {
    (v as int / vstd::arithmetic::power2::pow2((4 * (31 - k)) as nat) as int) % 16
}

/// Which digit of the 32 stands at position `i` of the 36-character text.
pub open spec fn digit_at_position(i: int) -> int {
    if i < 8 {
        i
    } else if i < 13 {
        i - 1
    } else if i < 18 {
        i - 2
    } else if i < 23 {
        i - 3
    } else {
        i - 4
    }
}

/// The hyphenated lower-case text of a UUID value, such as
/// `a1a2a3a4-b1b2-c1c2-d1d2-d3d4d5d6d7d8`.
pub open spec fn hyphenated_text(v: u128) -> Seq<char> {
    Seq::new(
        36,
        |i: int|
            if i == 8 || i == 13 || i == 18 || i == 23 {
                '-'
            } else {
                hex_digit(nibble(v, digit_at_position(i)))
            },
    )
}

/// The 64 most significant bits of a UUID value.
pub open spec fn high_bits(v: u128) -> int {
    v as int / 0x1_0000_0000_0000_0000
}

/// Calls `uuid::Uuid::parse_str` and takes the parsed UUID as its 128-bit
/// value (`Uuid::as_u128`). The contract only names the result: which texts
/// parse, and to what, is the crate's parser.
#[verifier::external_body]
fn parse_uuid_text(text: &str) -> (r: Option<u128>)
    ensures
        r == uuid_parse(text@),
{
    match uuid::Uuid::parse_str(text) {
        Ok(u) => Some(u.as_u128()),
        Err(_) => None,
    }
}

/// Calls `uuid::Uuid::from_u128(v).hyphenated().to_string()`. The contract
/// claims the text is the hyphenated lower-case form (the crate's `Display`
/// and `Hyphenated` formats), and that `parse_str` reads that text back as
/// `v`, as the crate documents for every format it generates.
#[verifier::external_body]
fn uuid_hyphenated_text(v: u128) -> (s: String)
    ensures
        s@ == hyphenated_text(v),
        uuid_parse(s@) == Some(v),
{
    uuid::Uuid::from_u128(v).hyphenated().to_string()
}

/// Calls `uuid::Uuid::from_u128(v).as_u64_pair()`. The contract claims what
/// the crate documents: the 64 most and the 64 least significant bits.
#[verifier::external_body]
fn uuid_u64_pair(v: u128) -> (r: (u64, u64))
    ensures
        r.0 == high_bits(v),
        r.1 == v as int % 0x1_0000_0000_0000_0000,
{
    uuid::Uuid::from_u128(v).as_u64_pair()
}

/// The identifier of a collection: a UUID, held as its 128-bit big-endian
/// value (so that the order of values is the order of UUIDs).
#[derive(Clone, Copy, Debug, PartialEq, Eq, Structural, Hash, PartialOrd, Ord)]
pub struct CollectionUuid(pub u128);

/// The identifier that a text names, if the UUID parser accepts it.
pub open spec fn parsed_collection_id(text: Seq<char>) -> Option<CollectionUuid> {
    match uuid_parse(text) {
        Some(v) => Some(CollectionUuid(v)),
        None => None,
    }
}

impl CollectionUuid {
    /// Parses a collection identifier from its text.
    pub fn parse(text: &str) -> (r: Option<CollectionUuid>)
        ensures
            r == parsed_collection_id(text@),
    {
        match parse_uuid_text(text) {
            Some(v) => Some(CollectionUuid(v)),
            None => None,
        }
    }

    /// The hyphenated lower-case text of the identifier; parsing it gives the
    /// identifier back.
    pub fn to_string(&self) -> (s: String)
        ensures
            s@ == hyphenated_text(self.0),
            parsed_collection_id(s@) == Some(*self),
    {
        uuid_hyphenated_text(self.0)
    }

    /// The 64 most significant bits of the identifier.
    pub fn high_bits(&self) -> (h: u64)
        ensures
            h == high_bits(self.0),
    {
        uuid_u64_pair(self.0).0
    }
}

} // verus!
