//! Text as sequences of characters: trimming, cutting, character classes,
//! decimal numbers.

use vstd::prelude::*;
use vstd::string::*;

verus! {

/// `String::push` appends one character to the end of the string.
pub assume_specification[ String::push ](s: &mut String, c: char)
    ensures
        final(s)@ == old(s)@.push(c),
;

/// `==` on string slices holds when they consist of the same characters.
pub assume_specification[ <str as PartialEq>::eq ](left: &str, right: &str) -> (same: bool)
    ensures
        same == (left@ == right@),
;

/// The control characters: general category `Cc`.
pub open spec fn control_char(c: char) -> bool {
    c as u32 <= 0x1f || 0x7f <= c as u32 <= 0x9f
}

/// The characters with the property `White_Space`.
pub open spec fn white_space_char(c: char) -> bool {
    let u = c as u32;
    ||| 0x09 <= u <= 0x0d
    ||| u == 0x20
    ||| u == 0x85
    ||| u == 0xa0
    ||| u == 0x1680
    ||| 0x2000 <= u <= 0x200a
    ||| u == 0x2028
    ||| u == 0x2029
    ||| u == 0x202f
    ||| u == 0x205f
    ||| u == 0x3000
}

/// Whether `c` is a control character.
pub fn is_control(c: char) -> (r: bool)
    ensures
        r == control_char(c),
{
    let u: u32 = c as u32;
    u <= 0x1f || (0x7f <= u && u <= 0x9f)
}

/// Whether `c` is white space.
pub fn is_white_space(c: char) -> (r: bool)
    ensures
        r == white_space_char(c),
{
    let u: u32 = c as u32;
    (0x09 <= u && u <= 0x0d) || u == 0x20 || u == 0x85 || u == 0xa0 || u == 0x1680 || (0x2000 <= u
        && u <= 0x200a) || u == 0x2028 || u == 0x2029 || u == 0x202f || u == 0x205f || u == 0x3000
}

/// The number of bytes that `s` takes in UTF-8.
pub open spec fn byte_len(s: Seq<char>) -> nat {
    vstd::utf8::encode_utf8(s).len()
}

/// The length of `s` in bytes.
pub fn len_in_bytes(s: &str) -> (r: usize)
    ensures
        r == byte_len(s@),
{
    s.as_bytes().len()
}

/// The characters of `s`, in order.
pub fn chars_of(s: &str) -> (r: Vec<char>)
    ensures
        r@ == s@,
{
    let mut out: Vec<char> = Vec::new();
    for c in it: s.chars()
        invariant
            out@ == it.seq().take(it.index() as int),
            it.seq() == s@,
    {
        out.push(c);
    }
    out
}

/// `s` without its leading white space.
pub open spec fn without_leading(s: Seq<char>) -> Seq<char>
    decreases s.len(),
{
    if s.len() > 0 && white_space_char(s[0]) {
        without_leading(s.drop_first())
    } else {
        s
    }
}

/// `s` without its trailing white space.
pub open spec fn without_trailing(s: Seq<char>) -> Seq<char>
    decreases s.len(),
{
    if s.len() > 0 && white_space_char(s.last()) {
        without_trailing(s.drop_last())
    } else {
        s
    }
}

/// `s` without the white space at both its ends.
pub open spec fn trimmed(s: Seq<char>) -> Seq<char> {
    without_trailing(without_leading(s))
}

/// `s` without the white space at both its ends.
pub fn trim<'a>(s: &'a str) -> (r: &'a str)
    ensures
        r@ == trimmed(s@),
{
    let chars: Vec<char> = chars_of(s);
    let n: usize = chars.len();
    let mut start: usize = 0;
    assert(s@.skip(0) == s@);
    while start < n && is_white_space(chars[start])
        invariant
            start <= n,
            n == chars.len(),
            chars@ == s@,
            without_leading(s@) == without_leading(s@.skip(start as int)),
        decreases n - start,
    {
        proof {
            assert(s@.skip(start as int).drop_first() == s@.skip(start + 1));
        }
        start += 1;
    }
    let mut end: usize = n;
    assert(s@.skip(start as int) == s@.subrange(start as int, end as int));
    while start < end && is_white_space(chars[end - 1])
        invariant
            start <= end <= n,
            n == chars.len(),
            chars@ == s@,
            without_leading(s@) == s@.skip(start as int),
            without_trailing(s@.skip(start as int)) == without_trailing(
                s@.subrange(start as int, end as int),
            ),
        decreases end - start,
    {
        proof {
            assert(s@.subrange(start as int, end as int).drop_last() == s@.subrange(
                start as int,
                end - 1,
            ));
        }
        end -= 1;
    }
    s.substring_char(start, end)
}

/// What lies between the occurrences of `sep` in `s`, in order.
pub open spec fn pieces(s: Seq<char>, sep: char) -> Seq<Seq<char>>
    decreases s.len(),
{
    if s.len() == 0 {
        seq![Seq::<char>::empty()]
    } else {
        let before = pieces(s.drop_last(), sep);
        if s.last() == sep {
            before.push(Seq::<char>::empty())
        } else {
            before.drop_last().push(before.last().push(s.last()))
        }
    }
}

/// The characters of each of `slices`.
pub open spec fn texts(slices: Seq<&str>) -> Seq<Seq<char>> {
    slices.map_values(|slice: &str| slice@)
}

/// Cuts `s` at every `sep`.
pub fn split<'a>(s: &'a str, sep: char) -> (r: Vec<&'a str>)
    ensures
        texts(r@) == pieces(s@, sep),
{
    let chars: Vec<char> = chars_of(s);
    let n: usize = chars.len();
    let mut out: Vec<&'a str> = Vec::new();
    let mut start: usize = 0;
    let mut i: usize = 0;
    proof {
        assert(s@.take(0) =~= Seq::<char>::empty());
        assert(s@.subrange(0, 0) =~= Seq::<char>::empty());
        assert(texts(out@).push(Seq::<char>::empty()) =~= pieces(s@.take(0), sep));
    }
    while i < n
        invariant
            start <= i <= n,
            n == chars.len(),
            chars@ == s@,
            texts(out@).push(s@.subrange(start as int, i as int)) == pieces(
                s@.take(i as int),
                sep,
            ),
        decreases n - i,
    {
        let ghost before = texts(out@);
        let ghost run = s@.subrange(start as int, i as int);
        proof {
            assert(s@.take(i + 1).drop_last() =~= s@.take(i as int));
            assert(before.push(run).drop_last() =~= before);
        }
        if chars[i] == sep {
            out.push(s.substring_char(start, i));
            start = i + 1;
            proof {
                assert(texts(out@) =~= before.push(run));
                assert(s@.subrange(start as int, i + 1) =~= Seq::<char>::empty());
            }
        } else {
            proof {
                assert(run.push(s@[i as int]) =~= s@.subrange(start as int, i + 1));
            }
        }
        i += 1;
    }
    let ghost before = texts(out@);
    out.push(s.substring_char(start, n));
    proof {
        assert(s@.take(n as int) =~= s@);
        assert(texts(out@) =~= before.push(s@.subrange(start as int, n as int)));
    }
    out
}

/// There is always a piece.
pub proof fn lemma_pieces_nonempty(s: Seq<char>, sep: char)
    ensures
        pieces(s, sep).len() > 0,
    decreases s.len(),
{
    if s.len() > 0 {
        lemma_pieces_nonempty(s.drop_last(), sep);
    }
}

/// Text in which `sep` does not occur is its own only piece.
pub proof fn lemma_pieces_of_plain(s: Seq<char>, sep: char)
    requires
        !s.contains(sep),
    ensures
        pieces(s, sep) == seq![s],
    decreases s.len(),
{
    if s.len() == 0 {
        assert(s =~= Seq::<char>::empty());
    } else {
        assert(s.last() == s[s.len() - 1]);
        assert(!s.drop_last().contains(sep)) by {
            if s.drop_last().contains(sep) {
                let i = choose|i: int| 0 <= i < s.drop_last().len() && s.drop_last()[i] == sep;
                assert(s[i] == sep);
            }
        }
        lemma_pieces_of_plain(s.drop_last(), sep);
        assert(s.drop_last().push(s.last()) =~= s);
        assert(pieces(s, sep) =~= seq![s]);
    }
}

/// The pieces of two texts joined by `sep` are those of the one, then those of the other.
pub proof fn lemma_pieces_of_joined(a: Seq<char>, b: Seq<char>, sep: char)
    ensures
        pieces(a.push(sep) + b, sep) == pieces(a, sep) + pieces(b, sep),
    decreases b.len(),
{
    let joined = a.push(sep) + b;
    if b.len() == 0 {
        assert(joined =~= a.push(sep));
        assert(joined.drop_last() =~= a);
        assert(pieces(joined, sep) =~= pieces(a, sep) + pieces(b, sep));
    } else {
        assert(joined.drop_last() =~= a.push(sep) + b.drop_last());
        assert(joined.last() == b.last());
        lemma_pieces_of_joined(a, b.drop_last(), sep);
        lemma_pieces_nonempty(b.drop_last(), sep);
        let left = pieces(a, sep);
        let right = pieces(b.drop_last(), sep);
        assert((left + right).drop_last() =~= left + right.drop_last());
        assert((left + right).last() == right.last());
        assert(pieces(joined, sep) =~= left + pieces(b, sep));
    }
}

/// The texts in `parts`, one behind the other, with `sep` between them.
pub open spec fn joined(parts: Seq<Seq<char>>, sep: char) -> Seq<char>
    decreases parts.len(),
{
    if parts.len() == 0 {
        Seq::empty()
    } else if parts.len() == 1 {
        parts[0]
    } else {
        joined(parts.drop_last(), sep).push(sep) + parts.last()
    }
}

/// Joining the pieces of a text gives the text back.
pub proof fn lemma_joined_pieces(s: Seq<char>, sep: char)
    ensures
        joined(pieces(s, sep), sep) == s,
    decreases s.len(),
{
    if s.len() == 0 {
        assert(s =~= Seq::<char>::empty());
    } else {
        let before = pieces(s.drop_last(), sep);
        lemma_joined_pieces(s.drop_last(), sep);
        lemma_pieces_nonempty(s.drop_last(), sep);
        assert(s.drop_last().push(s.last()) =~= s);
        if s.last() == sep {
            let all = before.push(Seq::<char>::empty());
            assert(all.drop_last() =~= before);
            assert(joined(all, sep) =~= s);
        } else {
            let last = before.last().push(s.last());
            let all = before.drop_last().push(last);
            assert(all.drop_last() =~= before.drop_last());
            assert(joined(all, sep) =~= s);
        }
    }
}

/// `c` in lower case where it is an ASCII letter.
pub open spec fn ascii_lower_char(c: char) -> char {
    if 'A' <= c <= 'Z' {
        (c as u8 + 32) as char
    } else {
        c
    }
}

/// `s` with its ASCII letters in lower case.
pub open spec fn ascii_lowered(s: Seq<char>) -> Seq<char> {
    s.map_values(|c: char| ascii_lower_char(c))
}

/// `s` with its ASCII letters in lower case.
pub fn ascii_lower(s: &str) -> (r: String)
    ensures
        r@ == ascii_lowered(s@),
{
    let mut out: String = String::new();
    for c in it: s.chars()
        invariant
            it.seq() == s@,
            out@ == ascii_lowered(s@.take(it.index() as int)),
    {
        let lowered: char = if 'A' <= c && c <= 'Z' {
            (c as u8 + 32) as char
        } else {
            c
        };
        out.push(lowered);
        proof {
            assert(s@.take(it.index() + 1) =~= s@.take(it.index() as int).push(c));
            assert(ascii_lowered(s@.take(it.index() + 1)) =~= ascii_lowered(
                s@.take(it.index() as int),
            ).push(lowered));
        }
    }
    proof {
        assert(s@.take(s@.len() as int) =~= s@);
    }
    out
}

/// The decimal digit for `d`, which is under 10.
pub open spec fn digit_char(d: nat) -> char {
    (48 + d) as char
}

/// `n` in decimal.
pub open spec fn decimal(n: nat) -> Seq<char>
    decreases n,
{
    if n < 10 {
        seq![digit_char(n)]
    } else {
        decimal(n / 10).push(digit_char(n % 10))
    }
}

/// `n` in decimal.
pub fn decimal_text(n: u64) -> (r: String)
    ensures
        r@ == decimal(n as nat),
    decreases n,
{
    let digit: char = (48u8 + (n % 10) as u8) as char;
    let mut out: String = if n < 10 {
        String::new()
    } else {
        decimal_text(n / 10)
    };
    out.push(digit);
    proof {
        if n < 10 {
            assert(out@ =~= seq![digit]);
        }
    }
    out
}

/// A number is written in digits, and in at least one.
pub proof fn lemma_decimal_digits(n: nat)
    ensures
        decimal(n).len() > 0,
        forall|i: int| 0 <= i < decimal(n).len() ==> '0' <= #[trigger] decimal(n)[i] <= '9',
    decreases n,
{
    if n >= 10 {
        lemma_decimal_digits(n / 10);
    }
}

/// Different numbers are written differently.
pub proof fn lemma_decimal_injective(a: nat, b: nat)
    requires
        decimal(a) == decimal(b),
    ensures
        a == b,
    decreases a,
{
    let s = decimal(a);
    assert(s.last() == digit_char(a % 10));
    assert(s.last() == digit_char(b % 10));
    lemma_decimal_digits(a / 10);
    lemma_decimal_digits(b / 10);
    if a >= 10 && b >= 10 {
        assert(s.drop_last() =~= decimal(a / 10));
        assert(s.drop_last() =~= decimal(b / 10));
        lemma_decimal_injective(a / 10, b / 10);
    }
}

/// Ten to the power `k`.
pub open spec fn power_of_ten(k: nat) -> nat
    decreases k,
{
    if k == 0 {
        1
    } else {
        10 * power_of_ten((k - 1) as nat)
    }
}

/// A number under ten to the power `k` is written in at most `k` digits.
pub proof fn lemma_decimal_len(n: nat, k: nat)
    requires
        k > 0,
        n < power_of_ten(k),
    ensures
        decimal(n).len() <= k,
    decreases n,
{
    if n >= 10 {
        assert(power_of_ten(k) == 10 * power_of_ten((k - 1) as nat));
        if k == 1 {
            assert(power_of_ten(0) == 1);
        }
        lemma_decimal_len(n / 10, (k - 1) as nat);
    }
}

/// `a` and behind it `b`.
pub fn followed_by(a: &str, b: &str) -> (r: String)
    ensures
        r@ == a@ + b@,
{
    let mut out: String = a.to_owned();
    out.append(b);
    out
}

/// Whether `c` occurs in `s`.
pub fn contains_char(s: &str, c: char) -> (r: bool)
    ensures
        r == s@.contains(c),
{
    let chars: Vec<char> = chars_of(s);
    let mut i: usize = 0;
    while i < chars.len()
        invariant
            i <= chars.len(),
            chars@ == s@,
            forall|j: int| 0 <= j < i ==> #[trigger] s@[j] != c,
        decreases chars.len() - i,
    {
        if chars[i] == c {
            assert(s@[i as int] == c);
            return true;
        }
        i += 1;
    }
    false
}

/// Whether some character of `s` is a control character.
pub open spec fn has_control(s: Seq<char>) -> bool {
    exists|i: int| 0 <= i < s.len() && control_char(#[trigger] s[i])
}

/// Whether some character of `s` is a control character.
pub fn contains_control(s: &str) -> (r: bool)
    ensures
        r == has_control(s@),
{
    let chars: Vec<char> = chars_of(s);
    let mut i: usize = 0;
    while i < chars.len()
        invariant
            i <= chars.len(),
            chars@ == s@,
            forall|j: int| 0 <= j < i ==> !control_char(#[trigger] s@[j]),
        decreases chars.len() - i,
    {
        if is_control(chars[i]) {
            return true;
        }
        i += 1;
    }
    false
}

/// Text that is not empty, has at most `maximum` characters and no control character.
pub open spec fn bounded_text(s: Seq<char>, maximum: nat) -> bool {
    0 < s.len() <= maximum && !has_control(s)
}

/// Whether `value` is not empty, has at most `maximum_chars` characters and no control
/// character.
pub fn valid_bounded_text(value: &str, maximum_chars: usize) -> (r: bool)
    ensures
        r == bounded_text(value@, maximum_chars as nat),
{
    !value.is_empty() && value.unicode_len() <= maximum_chars && !contains_control(value)
}

/// The text of a fault, if there is one.
pub open spec fn fault_of(r: Result<(), String>) -> Option<Seq<char>> {
    match r {
        Ok(_) => None,
        Err(e) => Some(e@),
    }
}

/// `value` as a setting: trimmed, and absent where nothing is left.
pub open spec fn setting(value: Option<Seq<char>>) -> Option<Seq<char>> {
    match value {
        Some(raw) if trimmed(raw).len() > 0 => Some(trimmed(raw)),
        _ => None,
    }
}

/// The characters of an optional text.
pub open spec fn opt_text(value: Option<String>) -> Option<Seq<char>> {
    match value {
        Some(s) => Some(s@),
        None => None,
    }
}

/// `value` as a setting: trimmed, and absent where nothing is left.
pub fn non_empty(value: &Option<String>) -> (r: Option<String>)
    ensures
        opt_text(r) == setting(opt_text(*value)),
{
    match value {
        None => None,
        Some(raw) => {
            let kept: &str = trim(raw.as_str());
            if kept.is_empty() {
                None
            } else {
                Some(kept.to_owned())
            }
        },
    }
}

/// The texts in `parts` without the white space at their ends, and without those of which
/// nothing is left.
pub open spec fn nonblank(parts: Seq<Seq<char>>) -> Seq<Seq<char>>
    decreases parts.len(),
{
    if parts.len() == 0 {
        Seq::empty()
    } else {
        let rest = nonblank(parts.drop_last());
        let last = trimmed(parts.last());
        if last.len() == 0 {
            rest
        } else {
            rest.push(last)
        }
    }
}

/// The entries of a list whose separator is a comma: trimmed, blank ones left out.
pub open spec fn entries(raw: Seq<char>) -> Seq<Seq<char>> {
    nonblank(pieces(raw, ','))
}

/// The entries of a list whose separator is a comma.
pub fn list_entries<'a>(raw: &'a str) -> (r: Vec<&'a str>)
    ensures
        texts(r@) == entries(raw@),
{
    let parts: Vec<&'a str> = split(raw, ',');
    let mut out: Vec<&'a str> = Vec::new();
    let mut i: usize = 0;
    proof {
        assert(texts(parts@).take(0) =~= Seq::<Seq<char>>::empty());
        assert(texts(out@) =~= Seq::<Seq<char>>::empty());
    }
    while i < parts.len()
        invariant
            i <= parts.len(),
            texts(parts@) == pieces(raw@, ','),
            texts(out@) == nonblank(texts(parts@).take(i as int)),
        decreases parts.len() - i,
    {
        let ghost before = texts(out@);
        let entry: &'a str = trim(parts[i]);
        proof {
            let seen = texts(parts@).take(i + 1);
            assert(seen.drop_last() =~= texts(parts@).take(i as int));
            assert(seen.last() == parts@[i as int]@);
        }
        if !entry.is_empty() {
            out.push(entry);
            proof {
                assert(texts(out@) =~= before.push(entry@));
            }
        }
        i += 1;
    }
    proof {
        assert(texts(parts@).take(i as int) =~= texts(parts@));
    }
    out
}

proof fn lemma_ends(s: Seq<char>)
    ensures
        without_leading(s).len() > 0 ==> !white_space_char(without_leading(s)[0]),
        without_trailing(s).len() > 0 ==> !white_space_char(without_trailing(s).last())
            && without_trailing(s)[0] == s[0],
        without_trailing(s).len() <= s.len(),
    decreases s.len(),
{
    if s.len() > 0 {
        lemma_ends(s.drop_first());
        lemma_ends(s.drop_last());
    }
}

/// Text whose ends are no white space is trimmed already.
pub proof fn lemma_trimmed_already(s: Seq<char>)
    requires
        s.len() > 0 ==> !white_space_char(s[0]) && !white_space_char(s.last()),
    ensures
        trimmed(s) == s,
{
}

/// What is trimmed has no white space at its ends.
pub proof fn lemma_trimmed_ends(s: Seq<char>)
    ensures
        trimmed(s).len() > 0 ==> !white_space_char(trimmed(s)[0]) && !white_space_char(
            trimmed(s).last(),
        ),
{
    lemma_ends(s);
    lemma_ends(without_leading(s));
}

/// To trim twice is to trim once.
pub proof fn lemma_trimmed_twice(s: Seq<char>)
    ensures
        trimmed(trimmed(s)) == trimmed(s),
{
    lemma_trimmed_ends(s);
    lemma_trimmed_already(trimmed(s));
}

/// What was trimmed and put in lower case stays as it is when both are done again.
pub proof fn lemma_lowered_stays_trimmed(s: Seq<char>)
    ensures
        ascii_lowered(trimmed(ascii_lowered(trimmed(s)))) == ascii_lowered(trimmed(s)),
{
    let low = ascii_lowered(trimmed(s));
    lemma_trimmed_ends(s);
    lemma_trimmed_already(low);
    assert(ascii_lowered(low) =~= low);
}

} // verus!
