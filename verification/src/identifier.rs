//! Identifiers of 128 bits, drawn at random and written in hexadecimal.

use uuid::Uuid;
use vstd::prelude::*;
use vstd::string::*;

verus! {

/// Whether `id` has the version and the variant of an identifier drawn at random.
pub open spec fn random_version(id: u128) -> bool {
    &&& id / 0x1000_0000_0000_0000_0000 % 16 == 4
    &&& id / 0x4000_0000_0000_0000 % 4 == 2
}

/// `Uuid::new_v4` of `uuid`: 122 bits at random, beside the version and the variant. Which
/// identifier comes, and that it came never before, is left to chance.
#[verifier::external_body]
pub(crate) fn draw_identifier() -> (id: u128)
    ensures
        random_version(id),
{
    Uuid::new_v4().as_u128()
}

/// The hexadecimal digit for `d`, which is under 16.
pub open spec fn hex_char(d: int) -> char {
    (if d < 10 { 48 + d } else { 87 + d }) as char
}

/// `id` as 32 hexadecimal digits in lower case, the most significant one first.
pub open spec fn simple_form(id: u128) -> Seq<char> {
    Seq::new(32, |i: int| hex_char(id as int / vstd::arithmetic::power::pow(16, (31 - i) as nat) % 16))
}

/// `id` in digits, with hyphens behind the eighth, twelfth, sixteenth and twentieth of them.
pub open spec fn hyphenated_form(id: u128) -> Seq<char> {
    let digits = simple_form(id);
    let hyphen = seq!['-'];
    digits.subrange(0, 8) + hyphen + digits.subrange(8, 12) + hyphen + digits.subrange(12, 16)
        + hyphen + digits.subrange(16, 20) + hyphen + digits.subrange(20, 32)
}

/// `Uuid::simple` of `uuid`, written out: 32 hexadecimal digits in lower case.
#[verifier::external_body]
pub(crate) fn simple_text(id: u128) -> (r: String)
    ensures
        r@ == simple_form(id),
{
    Uuid::from_u128(id).simple().to_string()
}

/// A `Uuid` of `uuid`, written out: hexadecimal digits in lower case in groups of eight, four,
/// four, four and twelve, between hyphens.
#[verifier::external_body]
pub(crate) fn hyphenated_text(id: u128) -> (r: String)
    ensures
        r@ == hyphenated_form(id),
{
    Uuid::from_u128(id).to_string()
}

/// Whether `c` is a hexadecimal digit in lower case or a hyphen.
pub open spec fn identifier_char(c: char) -> bool {
    '0' <= c <= '9' || 'a' <= c <= 'f' || c == '-'
}

/// An identifier is written in 36 characters: digits and hyphens.
pub proof fn lemma_hyphenated_form(id: u128)
    ensures
        hyphenated_form(id).len() == 36,
        forall|i: int| 0 <= i < 36 ==> identifier_char(#[trigger] hyphenated_form(id)[i]),
{
    let digits = simple_form(id);
    assert forall|i: int| 0 <= i < 32 implies identifier_char(#[trigger] digits[i]) by {
        let d = id as int / vstd::arithmetic::power::pow(16, (31 - i) as nat) % 16;
        assert(0 <= d < 16);
        assert(digits[i] == hex_char(d));
    }
}

} // verus!
