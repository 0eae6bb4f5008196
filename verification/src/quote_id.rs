//! Identifiers of quotes: 128-bit universally unique identifiers and their
//! text.

use crate::util::hex_digit;
use vstd::prelude::*;

verus! {

/// A universally unique identifier, as the number that its sixteen bytes
/// stand for, most significant first.
#[derive(Clone, Copy, Debug, PartialEq, Eq, Structural, Hash, PartialOrd, Ord)]
pub struct Uuid(pub u128);

/// Sixteen to the power `n`.
pub open spec fn pow16(n: nat) -> nat
    decreases n,
{
    if n == 0 {
        1
    } else {
        16 * pow16((n - 1) as nat)
    }
}

/// The hexadecimal digit of `value` at place `k`, counted from the most
/// significant of its 32.
pub open spec fn nibble(value: u128, k: int) -> int {
    (value as nat / pow16((31 - k) as nat)) as int % 16
}

/// The number of hyphens before place `i` of the text of an identifier.
pub open spec fn hyphens_before(i: int) -> int {
    if i > 23 {
        4
    } else if i > 18 {
        3
    } else if i > 13 {
        2
    } else if i > 8 {
        1
    } else {
        0
    }
}

/// The text of an identifier: its 32 lower-case hexadecimal digits in groups
/// of 8, 4, 4, 4 and 12 with a hyphen between the groups.
pub open spec fn uuid_text(value: u128) -> Seq<char> {
    Seq::new(
        36,
        |i: int|
            if i == 8 || i == 13 || i == 18 || i == 23 {
                '-'
            } else {
                hex_digit(nibble(value, i - hyphens_before(i))) as char
            },
    )
}

/// An identifier has the version 4, that of random identifiers, and the
/// variant of RFC 9562: of its 32 hexadecimal digits, the one at place 12 is 4
/// and the one at place 16 is 8, 9, a or b.
pub open spec fn is_random_version(value: u128) -> bool {
    nibble(value, 12) == 4 && 8 <= nibble(value, 16) <= 11
}

/// `uuid::Uuid::to_string`, on the identifier that `uuid::Uuid::from_u128`
/// makes of the number: the hyphenated lower-case text.
#[verifier::external_body]
fn uuid_to_string(value: u128) -> (text: String)
    ensures
        text@ == uuid_text(value),
{
    uuid::Uuid::from_u128(value).to_string()
}

/// `uuid::Uuid::new_v4`: a fresh random identifier, as its number. The
/// identifier is random; what holds of every outcome is that it has the
/// version and the variant that the crate sets in each identifier it makes
/// this way.
#[verifier::external_body]
fn random_uuid() -> (value: u128)
    ensures
        is_random_version(value),
{
    uuid::Uuid::new_v4().as_u128()
}

impl Uuid {
    /// A fresh random identifier, of the version 4: in its text the third
    /// group begins with 4 and the fourth with 8, 9, a or b.
    pub fn new_v4() -> (id: Uuid)
        ensures
            is_random_version(id.0),
    {
        Uuid(random_uuid())
    }

    /// The identifier of a number.
    pub fn from_u128(value: u128) -> (id: Uuid)
        ensures
            id == Uuid(value),
    {
        Uuid(value)
    }

    /// The number of the identifier.
    pub fn as_u128(&self) -> (value: u128)
        ensures
            value == self.0,
    {
        self.0
    }

    /// The hyphenated lower-case text of the identifier.
    pub fn to_string(&self) -> (text: String)
        ensures
            text@ == uuid_text(self.0),
    {
        uuid_to_string(self.0)
    }
}

} // verus!
