//! What holds of the functions on text, said in terms of the characters.

use crate::number::{equal_numbers, with_cents};
use crate::text::{
    CharClass, all_digits, ascii_lowercase, decimal, decimal_is_digits, digit_char, ends_with,
    first_of, first_of_is_first, is_white_space, joined, last_of, last_of_up_to, lines, occurs_at,
    replaced, signed_decimal, starts_with, text_less, trim, trim_end, trim_start,
};
use vstd::prelude::*;

verus! {

// ---------------------------------------------------------------------------
// Characters
// ---------------------------------------------------------------------------

/// Of the ASCII characters the space and those from the tab to the carriage return
/// are white space; of the others the line and paragraph separators and the blanks of
/// all widths are.
pub proof fn white_space_is_blank(c: char)
    ensures
        (c as u32) < 0x80 ==> (is_white_space(c) <==> (c as u32 == 0x20 || 9 <= c as u32 <= 13)),
        (c as u32) >= 0x80 ==> (is_white_space(c) <==> (c as u32 == 0x85 || c as u32 == 0xa0
            || c as u32 == 0x1680 || 0x2000 <= c as u32 <= 0x200a || c as u32 == 0x2028
            || c as u32 == 0x2029 || c as u32 == 0x202f || c as u32 == 0x205f
            || c as u32 == 0x3000)),
{
}

/// Does `s` consist of white space alone?
pub open spec fn blank(s: Seq<char>) -> bool {
    forall|i: int| 0 <= i < s.len() ==> is_white_space(#[trigger] s[i])
}

/// Does `s` consist of characters of the class alone?
pub open spec fn all_of(s: Seq<char>, class: CharClass) -> bool {
    forall|i: int|
        0 <= i < s.len() ==> match class {
            CharClass::Blank => is_white_space(#[trigger] s[i]),
            CharClass::Newline => s[i] == '\n',
            CharClass::Slash => s[i] == '/',
            CharClass::HashOrBlank => s[i] == '#' || is_white_space(s[i]),
        }
}

/// Is `c` of the class?
pub open spec fn is_of(c: char, class: CharClass) -> bool {
    all_of(seq![c], class)
}

proof fn is_of_is_has(c: char, class: CharClass)
    ensures
        class.has(c) == is_of(c, class),
{
    let s = seq![c];
    assert(s[0] == c);
}

/// What is cut off the front is of the class, and what is left does not begin with
/// another one of it.
pub proof fn trimming_the_front(s: Seq<char>, class: CharClass) -> (cut: Seq<char>)
    ensures
        s == cut + trim_start(s, class),
        all_of(cut, class),
        trim_start(s, class).len() > 0 ==> !is_of(trim_start(s, class)[0], class),
    decreases s.len(),
{
    if s.len() > 0 {
        is_of_is_has(s[0], class);
    }
    if s.len() > 0 && class.has(s[0]) {
        let cut = trimming_the_front(s.drop_first(), class);
        let all = seq![s[0]] + cut;
        let left = trim_start(s.drop_first(), class);
        assert(left == trim_start(s, class));
        assert(s =~= seq![s[0]] + s.drop_first());
        assert(seq![s[0]] + (cut + left) =~= all + left);
        assert forall|i: int| 0 <= i < all.len() implies match class {
            CharClass::Blank => is_white_space(#[trigger] all[i]),
            CharClass::Newline => all[i] == '\n',
            CharClass::Slash => all[i] == '/',
            CharClass::HashOrBlank => all[i] == '#' || is_white_space(all[i]),
        } by {
            if i > 0 {
                assert(all[i] == cut[i - 1]);
            }
        }
        all
    } else {
        assert(s =~= Seq::<char>::empty() + s);
        Seq::empty()
    }
}

/// What is cut off the end is of the class, and what is left does not end with
/// another one of it.
pub proof fn trimming_the_end(s: Seq<char>, class: CharClass) -> (cut: Seq<char>)
    ensures
        s == trim_end(s, class) + cut,
        all_of(cut, class),
        trim_end(s, class).len() > 0 ==> !is_of(trim_end(s, class).last(), class),
    decreases s.len(),
{
    if s.len() > 0 {
        is_of_is_has(s.last(), class);
    }
    if s.len() > 0 && class.has(s.last()) {
        let cut = trimming_the_end(s.drop_last(), class);
        let all = cut.push(s.last());
        let left = trim_end(s.drop_last(), class);
        assert(left == trim_end(s, class));
        assert(s =~= s.drop_last().push(s.last()));
        assert((left + cut).push(s.last()) =~= left + all);
        assert forall|i: int| 0 <= i < all.len() implies match class {
            CharClass::Blank => is_white_space(#[trigger] all[i]),
            CharClass::Newline => all[i] == '\n',
            CharClass::Slash => all[i] == '/',
            CharClass::HashOrBlank => all[i] == '#' || is_white_space(all[i]),
        } by {
            if i < cut.len() {
                assert(all[i] == cut[i]);
            }
        }
        all
    } else {
        assert(s =~= s + Seq::<char>::empty());
        Seq::empty()
    }
}

/// Trimming takes white space off both ends, all of it and nothing else.
pub proof fn trimming_takes_blanks(s: Seq<char>) -> (r: (Seq<char>, Seq<char>))
    ensures
        s == r.0 + trim(s) + r.1,
        blank(r.0),
        blank(r.1),
        trim(s).len() > 0 ==> !is_white_space(trim(s)[0]) && !is_white_space(trim(s).last()),
{
    let a = trimming_the_front(s, CharClass::Blank);
    let mid = trim_start(s, CharClass::Blank);
    let b = trimming_the_end(mid, CharClass::Blank);
    assert(s =~= a + trim(s) + b);
    assert forall|i: int| 0 <= i < a.len() implies is_white_space(#[trigger] a[i]) by {}
    assert forall|i: int| 0 <= i < b.len() implies is_white_space(#[trigger] b[i]) by {}
    if trim(s).len() > 0 {
        let t = trim(s);
        is_of_is_has(mid[0], CharClass::Blank);
        is_of_is_has(t.last(), CharClass::Blank);
        assert(mid[0] == t[0]);
    }
    (a, b)
}

/// Small letters for capitals, everything else as it is.
pub proof fn lowercase_by_character(s: Seq<char>, i: int)
    requires
        0 <= i < s.len(),
    ensures
        ascii_lowercase(s).len() == s.len(),
        0x41 <= s[i] as u32 <= 0x5a ==> ascii_lowercase(s)[i] as u32 == s[i] as u32 + 32,
        !(0x41 <= s[i] as u32 <= 0x5a) ==> ascii_lowercase(s)[i] == s[i],
{
}

/// One character for another, everything else as it is.
pub proof fn replacing_by_character(s: Seq<char>, from: char, to: char, i: int)
    requires
        0 <= i < s.len(),
    ensures
        replaced(s, from, to).len() == s.len(),
        s[i] == from ==> replaced(s, from, to)[i] == to,
        s[i] != from ==> replaced(s, from, to)[i] == s[i],
{
}

// ---------------------------------------------------------------------------
// Parts
// ---------------------------------------------------------------------------

/// A text begins with what it can be split behind, and ends with what it can be split
/// before.
pub proof fn beginnings_and_ends(front: Seq<char>, back: Seq<char>)
    ensures
        starts_with(front + back, front),
        ends_with(front + back, back),
{
    let s = front + back;
    assert(s.subrange(0, front.len() as int) =~= front);
    assert(s.subrange(s.len() - back.len(), s.len() as int) =~= back);
}

/// What a text begins with can be split off it, and so can what it ends with.
pub proof fn splitting_beginnings_and_ends(s: Seq<char>, part: Seq<char>)
    ensures
        starts_with(s, part) ==> s == part + s.skip(part.len() as int),
        ends_with(s, part) ==> s == s.take(s.len() - part.len()) + part,
{
    if starts_with(s, part) {
        assert(s =~= s.subrange(0, part.len() as int) + s.skip(part.len() as int));
    }
    if ends_with(s, part) {
        let n = s.len() as int;
        assert(s =~= s.take(n - part.len()) + s.subrange(n - part.len(), n));
    }
}

/// The last place of a part is one of its places, and none is behind it.
pub proof fn last_place_is_last(s: Seq<char>, part: Seq<char>, at: int)
    ensures
        last_of(s, part) matches Some(i) ==> 0 <= i && i + part.len() <= s.len() && s.subrange(
            i,
            i + part.len(),
        ) == part && (0 <= at && at + part.len() <= s.len() && s.subrange(at, at + part.len())
            == part ==> at <= i),
        last_of(s, part) is None ==> !(0 <= at && at + part.len() <= s.len() && s.subrange(
            at,
            at + part.len(),
        ) == part),
{
    last_place_up_to(s, part, s.len() as int, at);
}

proof fn last_place_up_to(s: Seq<char>, part: Seq<char>, upto: int, at: int)
    ensures
        last_of_up_to(s, part, upto) matches Some(i) ==> occurs_at(s, part, i) && (occurs_at(
            s,
            part,
            at,
        ) && at <= upto ==> at <= i),
        last_of_up_to(s, part, upto) is None && at <= upto ==> !occurs_at(s, part, at),
    decreases upto + 1,
{
    if upto >= 0 && !occurs_at(s, part, upto) {
        last_place_up_to(s, part, upto - 1, at);
    }
}

/// The first line of a text is what stands before its first line feed, without a
/// carriage return at its end; the others are those of what stands behind it.
pub proof fn lines_are_split_at_line_feeds(line: Seq<char>, rest: Seq<char>)
    requires
        !line.contains('\n'),
    ensures
        lines(line.push('\n') + rest) == seq![
            if line.len() > 0 && line.last() == '\r' {
                line.drop_last()
            } else {
                line
            },
        ] + lines(rest),
        line.len() > 0 ==> lines(line) == seq![line],
        lines(Seq::<char>::empty()).len() == 0,
{
    let s = line.push('\n') + rest;
    first_of_is_first(s, '\n');
    first_of_is_first(line, '\n');
    assert(s[line.len() as int] == '\n');
    assert(s.contains('\n'));
    match first_of(s, '\n') {
        Some(i) => {
            if i < line.len() {
                assert(line[i] == '\n');
                assert(line.contains('\n'));
            } else if i > line.len() {
                assert(s[line.len() as int] != '\n');
            }
            assert(s.take(i) =~= line);
            assert(s.skip(i + 1) =~= rest);
        },
        None => {},
    }
    if let Some(i) = first_of(line, '\n') {
        assert(line.contains('\n'));
    }
}

/// Joined texts stand one behind the other, with the separator between them.
pub proof fn joining_puts_the_separator_between(parts: Seq<Seq<char>>, p: Seq<char>, sep: Seq<char>)
    ensures
        joined(seq![p], sep) == p,
        joined(Seq::<Seq<char>>::empty(), sep).len() == 0,
        parts.len() > 0 ==> joined(parts.push(p), sep) == joined(parts, sep) + sep + p,
{
    assert(parts.push(p).drop_last() =~= parts);
}

// ---------------------------------------------------------------------------
// Order
// ---------------------------------------------------------------------------

/// Of two texts the one with the smaller character at their first difference comes
/// first, and one that the other goes on from.
pub proof fn order_by_the_first_difference(common: Seq<char>, a: Seq<char>, b: Seq<char>)
    ensures
        a.len() > 0 && b.len() > 0 && a[0] < b[0] ==> text_less(
            common + a,
            common + b,
        ),
        a.len() > 0 && b.len() > 0 && b[0] < a[0] ==> !text_less(
            common + a,
            common + b,
        ),
        b.len() > 0 ==> text_less(common, common + b),
        !text_less(common + b, common),
    decreases common.len(),
{
    if common.len() > 0 {
        order_by_the_first_difference(common.drop_first(), a, b);
        assert((common + a).drop_first() =~= common.drop_first() + a);
        assert((common + b).drop_first() =~= common.drop_first() + b);
    } else {
        assert(common + a =~= a);
        assert(common + b =~= b);
    }
}

// ---------------------------------------------------------------------------
// Numbers
// ---------------------------------------------------------------------------

/// The number that digits stand for.
pub open spec fn value_of(digits: Seq<char>) -> int
    decreases digits.len(),
{
    if digits.len() == 0 {
        0
    } else {
        10 * value_of(digits.drop_last()) + (digits.last() as u32 - '0' as u32)
    }
}

/// A number is written by digits that stand for it, without a zero in front.
pub proof fn decimals_stand_for_their_number(n: nat)
    ensures
        all_digits(decimal(n)),
        value_of(decimal(n)) == n,
        n > 0 ==> decimal(n)[0] != '0',
    decreases n,
{
    decimal_is_digits(n);
    let s = decimal(n);
    if n < 10 {
        assert(s.drop_last() =~= Seq::<char>::empty());
        assert(value_of(s.drop_last()) == 0);
        assert(s.last() == ((48 + n as int) as char));
    } else {
        decimals_stand_for_their_number(n / 10);
        decimal_is_digits(n / 10);
        assert(s.drop_last() =~= decimal(n / 10));
        assert(s.last() == ((48 + (n % 10) as int) as char));
        assert(s[0] == decimal(n / 10)[0]);
    }
}

/// A negative number is written by a minus and the number without its sign.
pub proof fn signs_stand_in_front(n: nat)
    ensures
        signed_decimal(n as int) == decimal(n),
        n > 0 ==> signed_decimal(-(n as int)) == seq!['-'] + decimal(n),
{
}

/// Equality of numbers: what is no number equals nothing, the two zeros are equal, and
/// else the texts have to be.
pub proof fn equality_of_numbers(a: Seq<char>, b: Seq<char>)
    ensures
        equal_numbers(a, b) == equal_numbers(b, a),
        equal_numbers(a, a) <==> a != "NaN"@,
        equal_numbers(a, b) && a != b ==> (a == "0"@ && b == "-0"@) || (a == "-0"@ && b == "0"@),
        equal_numbers("0"@, "-0"@),
        !equal_numbers("NaN"@, a),
{
    reveal_strlit("NaN");
    reveal_strlit("0");
    reveal_strlit("-0");
    assert("NaN"@.len() == 3 && "0"@.len() == 1 && "-0"@.len() == 2);
}

/// A number with two decimal places has its whole part before the point and the hundredths
/// behind it.
pub proof fn hundredths_stand_behind_the_point(whole: u32, cents: u8)
    requires
        cents < 100,
    ensures
        ({
            let s = with_cents(whole, cents);
            let n = decimal(whole as nat).len() as int;
            &&& s.len() == n + 3
            &&& s.take(n) == decimal(whole as nat)
            &&& s[n] == '.'
            &&& all_digits(s.skip(n + 1))
            &&& value_of(s.skip(n + 1)) == cents
        }),
{
    let s = with_cents(whole, cents);
    let n = decimal(whole as nat).len() as int;
    assert(s.take(n) =~= decimal(whole as nat));
    let a = digit_char(cents as int / 10);
    let b = digit_char(cents as int % 10);
    let back = s.skip(n + 1);
    assert(back =~= seq![a, b]);
    assert(back.drop_last() =~= seq![a]);
    assert(seq![a].drop_last() =~= Seq::<char>::empty());
    reveal_with_fuel(value_of, 3);
    assert(back.last() == b && seq![a].last() == a);
}

} // verus!
