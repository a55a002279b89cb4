//! What the helpers for texts, numbers and times give, said of characters and numbers.

use crate::identifier;
use crate::json;
use crate::moment::Moment;
use crate::text;
use crate::token;
use crate::visitor::VisitorAction;
use vstd::prelude::*;
use vstd::string::*;

verus! {

/// Which characters are white space, and which are control characters, by their code points.
pub proof fn characters_have_their_classes(c: char)
    ensures
        text::control_char(c) <==> (c as u32) < 32 || 127 <= (c as u32) < 160,
        text::white_space_char(c) <==> {
            ||| 9 <= (c as u32) <= 13
            ||| (c as u32) == 32
            ||| (c as u32) == 133
            ||| (c as u32) == 160
            ||| (c as u32) == 5760
            ||| 8192 <= (c as u32) <= 8202
            ||| 8232 <= (c as u32) <= 8233
            ||| (c as u32) == 8239
            ||| (c as u32) == 8287
            ||| (c as u32) == 12288
        },
{
}

proof fn lemma_leading(s: Seq<char>) -> (i: int)
    ensures
        0 <= i <= s.len(),
        text::without_leading(s) == s.subrange(i, s.len() as int),
        forall|k: int| 0 <= k < i ==> text::white_space_char(#[trigger] s[k]),
    decreases s.len(),
{
    if s.len() > 0 && text::white_space_char(s[0]) {
        let rest = s.drop_first();
        let j: int = lemma_leading(rest);
        assert(rest.subrange(j, rest.len() as int) =~= s.subrange(j + 1, s.len() as int));
        assert forall|k: int| 0 <= k < j + 1 implies text::white_space_char(#[trigger] s[k]) by {
            if k > 0 {
                assert(rest[k - 1] == s[k]);
            }
        }
        j + 1
    } else {
        assert(s =~= s.subrange(0, s.len() as int));
        0
    }
}

proof fn lemma_trailing(s: Seq<char>) -> (j: int)
    ensures
        0 <= j <= s.len(),
        text::without_trailing(s) == s.subrange(0, j),
        forall|k: int| j <= k < s.len() ==> text::white_space_char(#[trigger] s[k]),
    decreases s.len(),
{
    if s.len() > 0 && text::white_space_char(s.last()) {
        let rest = s.drop_last();
        let j: int = lemma_trailing(rest);
        assert(rest.subrange(0, j) =~= s.subrange(0, j));
        assert forall|k: int| j <= k < s.len() implies text::white_space_char(#[trigger] s[k]) by {
            if k < rest.len() {
                assert(rest[k] == s[k]);
            }
        }
        j
    } else {
        assert(s =~= s.subrange(0, s.len() as int));
        s.len() as int
    }
}

/// To trim is to cut off white space at both ends, all of it, and nothing else.
pub proof fn trimming_cuts_the_white_space_at_the_ends(s: Seq<char>)
    ensures
        exists|i: int, j: int|
            {
                &&& 0 <= i <= j <= s.len()
                &&& text::trimmed(s) == #[trigger] s.subrange(i, j)
                &&& forall|k: int|
                    0 <= k < i || j <= k < s.len() ==> text::white_space_char(#[trigger] s[k])
            },
        text::trimmed(s).len() > 0 ==> !text::white_space_char(text::trimmed(s)[0])
            && !text::white_space_char(text::trimmed(s)[text::trimmed(s).len() - 1]),
{
    let i: int = lemma_leading(s);
    let rest = text::without_leading(s);
    let n: int = lemma_trailing(rest);
    assert(rest.subrange(0, n) =~= s.subrange(i, i + n));
    assert forall|k: int| 0 <= k < i || i + n <= k < s.len() implies text::white_space_char(
        #[trigger] s[k],
    ) by {
        if k >= i + n {
            assert(rest[k - i] == s[k]);
        }
    }
    text::lemma_trimmed_ends(s);
}

/// No piece of a text holds the separator, and joined by it the pieces are the text again.
pub proof fn pieces_lie_between_separators(s: Seq<char>, sep: char)
    ensures
        text::pieces(s, sep).len() > 0,
        forall|k: int, i: int|
            0 <= k < text::pieces(s, sep).len() && 0 <= i < text::pieces(s, sep)[k].len()
                ==> #[trigger] text::pieces(s, sep)[k][i] != sep,
        text::joined(text::pieces(s, sep), sep) == s,
    decreases s.len(),
{
    text::lemma_joined_pieces(s, sep);
    text::lemma_pieces_nonempty(s, sep);
    if s.len() > 0 {
        let before = text::pieces(s.drop_last(), sep);
        let all = text::pieces(s, sep);
        pieces_lie_between_separators(s.drop_last(), sep);
        assert forall|k: int, i: int|
            0 <= k < all.len() && 0 <= i < all[k].len() implies #[trigger] all[k][i] != sep by {
            if k < before.len() && i < before[k].len() {
                assert(before[k][i] != sep);
            }
        }
    }
}

/// Joined texts stand one behind the other with one separator between them.
pub proof fn joined_texts_stand_in_a_row(parts: Seq<Seq<char>>, last: Seq<char>, sep: char)
    ensures
        text::joined(seq![last], sep) == last,
        parts.len() > 0 ==> text::joined(parts.push(last), sep) == text::joined(parts, sep)
            + seq![sep] + last,
{
    assert(parts.push(last).drop_last() =~= parts);
    if parts.len() > 0 {
        assert(text::joined(parts.push(last), sep) =~= text::joined(parts, sep) + seq![sep]
            + last);
    }
}

/// Putting a text in lower case moves the letters from `A` to `Z` and nothing else.
pub proof fn lower_case_moves_ascii_letters(s: Seq<char>)
    ensures
        text::ascii_lowered(s).len() == s.len(),
        forall|i: int|
            0 <= i < s.len() ==> (#[trigger] text::ascii_lowered(s)[i]) as int == s[i] as int + (
            if 65 <= s[i] as int <= 90 {
                32int
            } else {
                0int
            }),
{
    assert forall|i: int| 0 <= i < s.len() implies (#[trigger] text::ascii_lowered(s)[i]) as int
        == s[i] as int + (if 65 <= s[i] as int <= 90 {
        32int
    } else {
        0int
    }) by {
        assert(text::ascii_lowered(s)[i] == text::ascii_lower_char(s[i]));
    }
}

/// The number that a row of decimal digits stands for.
pub open spec fn number(digits: Seq<char>) -> int
    decreases digits.len(),
{
    if digits.len() == 0 {
        0
    } else {
        10 * number(digits.drop_last()) + (digits.last() as int - 48)
    }
}

/// A number is written in decimal digits that stand for it, without a leading zero.
pub proof fn decimal_digits_stand_for_the_number(n: nat)
    ensures
        number(text::decimal(n)) == n,
        text::decimal(n).len() > 0,
        n > 0 ==> text::decimal(n)[0] != '0',
        forall|i: int|
            0 <= i < text::decimal(n).len() ==> 48 <= (#[trigger] text::decimal(n)[i]) as int <= 57,
    decreases n,
{
    let d = text::decimal(n);
    if n < 10 {
        assert(d.drop_last() =~= Seq::<char>::empty());
        assert(number(d.drop_last()) == 0);
    } else {
        decimal_digits_stand_for_the_number(n / 10);
        assert(d.drop_last() =~= text::decimal(n / 10));
    }
}

/// An integer is written in decimal, behind a minus sign where it is negative.
pub proof fn integers_are_written_with_their_sign(n: int)
    ensures
        n >= 0 ==> number(json::integer(n)) == n && json::integer(n)[0] != '-',
        n < 0 ==> json::integer(n)[0] == '-' && number(json::integer(n).skip(1)) == -n,
{
    if n >= 0 {
        decimal_digits_stand_for_the_number(n as nat);
    } else {
        decimal_digits_stand_for_the_number((-n) as nat);
        assert(json::integer(n).skip(1) =~= text::decimal((-n) as nat));
    }
}

/// The bytes that `c` takes in UTF-8.
pub open spec fn width(c: char) -> nat {
    if (c as u32) < 0x80 {
        1
    } else if (c as u32) < 0x800 {
        2
    } else if (c as u32) < 0x1_0000 {
        3
    } else {
        4
    }
}

/// The length of a text in bytes is the sum over its characters, of one to four bytes each.
pub proof fn bytes_are_counted_character_by_character(s: Seq<char>)
    ensures
        s.len() == 0 ==> text::byte_len(s) == 0,
        s.len() > 0 ==> text::byte_len(s) == width(s[0]) + text::byte_len(s.drop_first()),
{
    reveal_with_fuel(vstd::utf8::encode_utf8, 2);
    if s.len() > 0 {
        vstd::utf8::char_is_scalar(s[0]);
    }
}

/// A bounded text is one to so many characters long, and none of them is a control character.
pub proof fn bounded_texts_are_short_and_clean(s: Seq<char>, maximum: nat)
    ensures
        text::bounded_text(s, maximum) <==> {
            &&& 1 <= s.len() <= maximum
            &&& forall|i: int| 0 <= i < s.len() ==> !text::control_char(#[trigger] s[i])
        },
{
    if 1 <= s.len() <= maximum && !text::bounded_text(s, maximum) {
        assert(text::has_control(s));
    }
}

/// A setting is the trimmed value, where anything is left of it.
pub proof fn settings_are_trimmed_values(value: Option<Seq<char>>, s: Seq<char>)
    ensures
        text::setting(value) == Some(s) <==> s.len() > 0 && (value matches Some(raw)
            && text::trimmed(raw) == s),
        text::setting(value) is None <==> value is None || text::trimmed(value->Some_0).len() == 0,
{
}

proof fn lemma_nonblank(parts: Seq<Seq<char>>)
    ensures
        text::nonblank(parts) == parts.map_values(|p: Seq<char>| text::trimmed(p)).filter(
            |p: Seq<char>| p.len() > 0,
        ),
    decreases parts.len(),
{
    let trim = |p: Seq<char>| text::trimmed(p);
    let full = |p: Seq<char>| p.len() > 0;
    reveal(Seq::filter);
    if parts.len() == 0 {
        assert(parts.map_values(trim).filter(full) =~= Seq::<Seq<char>>::empty());
    } else {
        lemma_nonblank(parts.drop_last());
        assert(parts.map_values(trim).drop_last() =~= parts.drop_last().map_values(trim));
    }
}

/// The entries of a list are what lies between its commas, trimmed and in order, without what is
/// blank.
pub proof fn entries_lie_between_commas(raw: Seq<char>)
    ensures
        text::entries(raw) == text::pieces(raw, ',').map_values(
            |p: Seq<char>| text::trimmed(p),
        ).filter(|p: Seq<char>| p.len() > 0),
{
    lemma_nonblank(text::pieces(raw, ','));
}

/// A text in JSON stands between quotes. What is no control character under a space, no quote
/// and no backslash stands for itself; a quote or a backslash stands behind a backslash.
pub proof fn quoted_texts_are_escaped_character_by_character(s: Seq<char>, c: char)
    ensures
        json::quoted(s) == seq!['"'] + json::escaped_text(s) + seq!['"'],
        json::escaped_text(Seq::empty()).len() == 0,
        json::escaped_text(s.push(c)) == json::escaped_text(s) + json::escaped(c),
        c == '"' || c == '\\' ==> json::escaped(c) == seq!['\\', c],
        c as int >= 32 && c != '"' && c != '\\' ==> json::escaped(c) == seq![c],
        (c as int) < 32 ==> json::escaped(c).len() >= 2 && json::escaped(c)[0] == '\\',
{
    assert(s.push(c).drop_last() =~= s);
}

/// The payload for a door is this one text, with the door, the action and the minute in it.
pub proof fn payload_is_written_like_this(door: Seq<char>, action: VisitorAction, minute: i64)
    requires
        json::plain(door),
    ensures
        token::claims_text(token::claims_for(door, action, minute))
            == "{\"schema\":\"hhm.visitor-qr.v1\",\"audience\":\"hhm-visitor-access\",\"door_id\":\""@
            + door + (match action {
            VisitorAction::CheckIn => "\",\"action\":\"check_in\",\"issued_minute\":"@,
            VisitorAction::CheckOut => "\",\"action\":\"check_out\",\"issued_minute\":"@,
        }) + json::integer(minute as int) + "}"@,
{
    reveal_strlit("{\"schema\":\"hhm.visitor-qr.v1\",\"audience\":\"hhm-visitor-access\",\"door_id\":\"");
    reveal_strlit("\",\"action\":\"check_in\",\"issued_minute\":");
    reveal_strlit("\",\"action\":\"check_out\",\"issued_minute\":");
    reveal_strlit("{\"schema\":");
    reveal_strlit(",\"audience\":");
    reveal_strlit(",\"door_id\":");
    reveal_strlit(",\"action\":");
    reveal_strlit(",\"issued_minute\":");
    reveal_strlit("hhm.visitor-qr.v1");
    reveal_strlit("hhm-visitor-access");
    reveal_strlit("check_in");
    reveal_strlit("check_out");
    json::lemma_plain_text("hhm.visitor-qr.v1"@);
    json::lemma_plain_text("hhm-visitor-access"@);
    json::lemma_plain_text(door);
    json::lemma_plain_text("check_in"@);
    json::lemma_plain_text("check_out"@);
    let start = "{\"schema\":"@ + json::quoted("hhm.visitor-qr.v1"@) + ",\"audience\":"@
        + json::quoted("hhm-visitor-access"@) + ",\"door_id\":"@ + seq!['"'];
    assert(start
        =~= "{\"schema\":\"hhm.visitor-qr.v1\",\"audience\":\"hhm-visitor-access\",\"door_id\":\""@);
    let named = match action {
        VisitorAction::CheckIn => "\",\"action\":\"check_in\",\"issued_minute\":"@,
        VisitorAction::CheckOut => "\",\"action\":\"check_out\",\"issued_minute\":"@,
    };
    assert(seq!['"'] + ",\"action\":"@ + json::quoted(token::wire_name(action))
        + ",\"issued_minute\":"@ =~= named);
    assert(token::claims_text(token::claims_for(door, action, minute)) =~= start + door + named
        + json::integer(minute as int) + "}"@);
}

/// An identifier is written in the hexadecimal digits of its value, in lower case.
pub proof fn identifiers_are_written_in_hexadecimal(d: int)
    requires
        0 <= d < 16,
    ensures
        d < 10 ==> identifier::hex_char(d) as int == 48 + d,
        d >= 10 ==> identifier::hex_char(d) as int == 97 + (d - 10),
{
}

/// The calendar reaches from the start of the year -262143 to the end of the year 262142, and
/// has leap seconds at the end of a minute only.
pub proof fn calendar_has_its_bounds(m: Moment)
    ensures
        m.representable() <==> {
            &&& -8_334_601_228_800 <= m.seconds <= 8_210_266_876_799
            &&& 0 <= m.nanos
            &&& m.nanos < if m.seconds % 60 == 59 {
                2_000_000_000int
            } else {
                1_000_000_000int
            }
        },
{
}

/// Points in time are ordered by their seconds, and within a second by their nanoseconds.
pub proof fn moments_are_ordered_by_time(a: Moment, b: Moment)
    requires
        a.representable(),
        b.representable(),
    ensures
        a.before(b) <==> a.seconds * 2_000_000_000 + a.nanos < b.seconds * 2_000_000_000 + b.nanos,
{
}

/// A minute lasts sixty seconds.
pub proof fn minutes_last_sixty_seconds(m: Moment)
    ensures
        60 * m.minute() <= m.seconds < 60 * m.minute() + 60,
{
}

/// Outside a leap second, to go so many seconds later or earlier moves the seconds alone, and
/// the time between is those seconds.
pub proof fn time_moves_by_whole_seconds(m: Moment, n: int)
    requires
        0 <= m.nanos < 1_000_000_000,
    ensures
        m.later(n).seconds == m.seconds + n,
        m.later(n).nanos == m.nanos,
        m.earlier(n).seconds == m.seconds - n,
        m.earlier(n).nanos == m.nanos,
        m.later(n).nanos_since(m) == 1_000_000_000 * n,
        m.later(n).earlier(n) == m,
{
}

/// In a leap second, time goes on from the second that it belongs to, and goes back from the
/// second that follows it.
pub proof fn leap_seconds_are_left_like_this(m: Moment, n: int)
    requires
        1_000_000_000 <= m.nanos < 2_000_000_000,
    ensures
        m.later(n).seconds == m.seconds + n,
        m.earlier(n).seconds == m.seconds + 1 - n,
        m.later(n).nanos == m.nanos - 1_000_000_000,
        m.earlier(n).nanos == m.nanos - 1_000_000_000,
{
}

/// Outside leap seconds, the time between two points is the difference of their seconds and
/// nanoseconds.
pub proof fn time_between_is_the_difference(end: Moment, start: Moment)
    requires
        0 <= end.nanos < 1_000_000_000,
        0 <= start.nanos < 1_000_000_000,
    ensures
        end.nanos_since(start) == (end.seconds * 1_000_000_000 + end.nanos) - (start.seconds
            * 1_000_000_000 + start.nanos),
{
}

} // verus!
