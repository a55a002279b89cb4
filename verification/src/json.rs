//! Texts and integers as JSON writes them.

use crate::identifier;
use crate::text;
use vstd::prelude::*;
use vstd::string::*;

verus! {

/// `c` inside a quoted text: quotes, backslashes and control characters under a space are
/// escaped, everything else stands for itself.
pub open spec fn escaped(c: char) -> Seq<char> {
    let u = c as int;
    if c == '"' || c == '\\' {
        seq!['\\', c]
    } else if u == 8 {
        seq!['\\', 'b']
    } else if u == 9 {
        seq!['\\', 't']
    } else if u == 10 {
        seq!['\\', 'n']
    } else if u == 12 {
        seq!['\\', 'f']
    } else if u == 13 {
        seq!['\\', 'r']
    } else if u < 32 {
        seq![
            '\\',
            'u',
            '0',
            '0',
            identifier::hex_char(u / 16),
            identifier::hex_char(u % 16),
        ]
    } else {
        seq![c]
    }
}

/// The characters of `s`, each as it stands inside a quoted text.
pub open spec fn escaped_text(s: Seq<char>) -> Seq<char>
    decreases s.len(),
{
    if s.len() == 0 {
        Seq::empty()
    } else {
        escaped_text(s.drop_last()) + escaped(s.last())
    }
}

/// `s` in quotes.
pub open spec fn quoted(s: Seq<char>) -> Seq<char> {
    seq!['"'] + escaped_text(s) + seq!['"']
}

/// `serde_json::to_string` on a string: the text in quotes, with quotes, backslashes and control
/// characters under a space escaped. Writing a string into memory does not fail.
#[verifier::external_body]
pub(crate) fn quoted_text(s: &str) -> (r: Option<String>)
    ensures
        r is Some,
        r->Some_0@ == quoted(s@),
{
    serde_json::to_string(s).ok()
}

/// Whether nothing in `s` has to be escaped.
pub open spec fn plain(s: Seq<char>) -> bool {
    forall|i: int| 0 <= i < s.len() ==> (#[trigger] s[i]) as int >= 32 && s[i] != '"' && s[i]
        != '\\'
}

/// A text in which nothing has to be escaped stands in quotes as it is.
pub proof fn lemma_plain_text(s: Seq<char>)
    requires
        plain(s),
    ensures
        escaped_text(s) == s,
    decreases s.len(),
{
    if s.len() > 0 {
        let short = s.drop_last();
        assert forall|i: int| 0 <= i < short.len() implies (#[trigger] short[i]) as int >= 32
            && short[i] != '"' && short[i] != '\\' by {
            assert(short[i] == s[i]);
        }
        lemma_plain_text(short);
        assert(s.last() == s[s.len() - 1]);
        assert(short + seq![s.last()] =~= s);
    }
}

/// `n` in decimal digits, with a sign where it is negative.
pub open spec fn integer(n: int) -> Seq<char> {
    if n < 0 {
        seq!['-'] + text::decimal((-n) as nat)
    } else {
        text::decimal(n as nat)
    }
}

/// `n` in decimal digits, with a sign where it is negative.
pub fn integer_text(n: i64) -> (r: String)
    ensures
        r@ == integer(n as int),
{
    if n < 0 {
        let size: u64 = (-(n + 1)) as u64 + 1;
        let mut out: String = String::new();
        out.push('-');
        out.append(text::decimal_text(size).as_str());
        proof {
            assert(out@ =~= integer(n as int));
        }
        out
    } else {
        text::decimal_text(n as u64)
    }
}

/// Different integers are written differently.
pub proof fn lemma_integer_injective(a: int, b: int)
    requires
        integer(a) == integer(b),
    ensures
        a == b,
{
    if a < 0 {
        text::lemma_decimal_digits((-a) as nat);
        assert(integer(a)[0] == '-');
        assert(integer(a).skip(1) =~= text::decimal((-a) as nat));
    } else {
        text::lemma_decimal_digits(a as nat);
    }
    if b < 0 {
        text::lemma_decimal_digits((-b) as nat);
        assert(integer(b)[0] == '-');
        assert(integer(b).skip(1) =~= text::decimal((-b) as nat));
    } else {
        text::lemma_decimal_digits(b as nat);
    }
    text::lemma_decimal_injective(
        (if a < 0 { -a } else { a }) as nat,
        (if b < 0 { -b } else { b }) as nat,
    );
}

} // verus!
