//! Note identifiers: 128-bit UUIDs, their hyphenated text form, and the
//! calls into the `uuid` crate that generate and parse them.

use vstd::prelude::*;
use crate::text::{hex_lower, push_hex_lower};

verus! {

/// A note identifier, held as the 128-bit value of a UUID (most significant
/// byte first, as `uuid::Uuid::as_u128` gives it).
#[derive(Clone, Copy, PartialEq, Eq, Structural, Debug)]
pub struct NoteId(pub u128);

/// The hexadecimal digit of `u` at position `k` (0 is the most significant).
pub open spec fn nibble(u: u128, k: int) -> int {
    ((u >> ((124 - 4 * k) as u128)) & 0xf) as int
}

/// Positions of the four hyphens in the 8-4-4-4-12 layout.
pub open spec fn is_hyphen_position(i: int) -> bool {
    i == 8 || i == 13 || i == 18 || i == 23
}

/// For a non-hyphen position of the 36-character layout, the index of the
/// hexadecimal digit shown there.
pub open spec fn digit_index(i: int) -> int {
    if i < 8 {
        i
    } else if i < 13 {
        i - 1
    } else if i < 18 {
        i - 2
    } else if i < 23 {
        i - 3
    } else {
        i - 4
    }
}

/// The lower-case hyphenated text of a UUID, e.g.
/// `67e55044-10b1-426f-9247-bb680e5fe0c8`.
pub open spec fn uuid_hyphenated(u: u128) -> Seq<char> {
    Seq::new(
        36,
        |i: int|
            if is_hyphen_position(i) {
                '-'
            } else {
                hex_lower(nibble(u, digit_index(i)))
            },
    )
}

/// The UUID version field (bits 76..80).
pub open spec fn uuid_version(u: u128) -> u128 {
    (u >> 76u128) & 0xf
}

/// The UUID variant field (bits 62..64); 2 is the RFC 4122 variant.
pub open spec fn uuid_variant(u: u128) -> u128 {
    (u >> 62u128) & 0x3
}

/// What `uuid::Uuid::try_parse` makes of a text: the UUID value, or `None`
/// when the text is not one of the accepted layouts.
pub uninterp spec fn uuid_try_parse(s: Seq<char>) -> Option<u128>;

/// Calls `uuid::Uuid::try_parse`. Its result is named `uuid_try_parse`;
/// the one fact stated besides is that the parser accepts the lower-case
/// hyphenated layout that `Uuid`'s `Display` writes and gives back the same
/// value (the hyphenated branch of the crate's `try_parse` reads each pair of
/// hex digits, either case, into the byte it came from).
#[verifier::external_body]
fn parse_uuid(s: &str) -> (r: Option<u128>)
    ensures
        r == uuid_try_parse(s@),
        forall|u: u128| s@ == uuid_hyphenated(u) ==> r == Some(u),
{
    uuid::Uuid::try_parse(s).ok().map(|u| u.as_u128())
}

/// Calls `uuid::Uuid::new_v4`: a random UUID whose version field is 4 and
/// whose variant is RFC 4122 (the crate masks these bits in). The other
/// 122 bits are random and nothing is stated of them.
#[verifier::external_body]
fn random_uuid() -> (r: u128)
    ensures
        uuid_version(r) == 4,
        uuid_variant(r) == 2,
{
    uuid::Uuid::new_v4().as_u128()
}

/// Calls `uuid::Uuid::now_v7`: a UUID built from the current time and random
/// bits, with version 7 and the RFC 4122 variant. The clock and the random
/// bits are not stated.
#[verifier::external_body]
fn time_ordered_uuid() -> (r: u128)
    ensures
        uuid_version(r) == 7,
        uuid_variant(r) == 2,
{
    uuid::Uuid::now_v7().as_u128()
}

/// Writes the lower-case hyphenated text of `u`, as `uuid::Uuid`'s
/// `Display` and `From<Uuid> for String` do.
pub fn uuid_to_string(u: u128) -> (s: String)
    ensures
        s@ == uuid_hyphenated(u),
{
    let mut s = String::new();
    let mut i: usize = 0;
    while i < 36
        invariant
            i <= 36,
            s@.len() == i,
            forall|j: int| 0 <= j < i ==> s@[j] == #[trigger] uuid_hyphenated(u)[j],
        decreases 36 - i,
    {
        if i == 8 || i == 13 || i == 18 || i == 23 {
            proof { reveal_strlit("-"); }
            s.append("-");
        } else {
            let k: usize = if i < 8 {
                i
            } else if i < 13 {
                i - 1
            } else if i < 18 {
                i - 2
            } else if i < 23 {
                i - 3
            } else {
                i - 4
            };
            let shift: u128 = (124 - 4 * k) as u128;
            let d: u128 = (u >> shift) & 0xf;
            assert(d < 16) by (bit_vector)
                requires
                    d == (u >> shift) & 0xf,
            ;
            push_hex_lower(&mut s, d as u8);
        }
        i = i + 1;
    }
    assert(s@ =~= uuid_hyphenated(u));
    s
}

impl NoteId {
    /// The identifier's hyphenated text, as `Uuid::to_string` writes it.
    pub fn to_string(&self) -> (s: String)
        ensures
            s@ == uuid_hyphenated(self.0),
    {
        uuid_to_string(self.0)
    }

    /// Parses an identifier from text with `Uuid::try_parse`; `None` where
    /// the text is not a UUID.
    pub fn try_parse(s: &str) -> (r: Option<NoteId>)
        ensures
            r == (match uuid_try_parse(s@) {
                Some(u) => Some(NoteId(u)),
                None => None::<NoteId>,
            }),
            forall|u: u128| s@ == uuid_hyphenated(u) ==> r == Some(NoteId(u)),
    {
        match parse_uuid(s) {
            Some(u) => Some(NoteId(u)),
            None => None,
        }
    }

    /// A fresh time-ordered identifier (`Uuid::now_v7`).
    pub fn now_v7() -> (r: NoteId)
        ensures
            uuid_version(r.0) == 7,
            uuid_variant(r.0) == 2,
    {
        NoteId(time_ordered_uuid())
    }
}

/// A fresh random UUID (`Uuid::new_v4`) in hyphenated text form.
pub fn new_v4_string() -> (s: String)
    ensures
        exists|u: u128| uuid_version(u) == 4 && uuid_variant(u) == 2 && s@ == uuid_hyphenated(u),
{
    let u = random_uuid();
    uuid_to_string(u)
}

} // verus!
