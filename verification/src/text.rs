//! Character-level text primitives.
//!
//! Every function works on the `Seq<char>` view of a string, so that the
//! contracts of the parsers and formatters built on top of them can be read
//! without any notion of byte offsets.

use vstd::prelude::*;

verus! {

/// `str` equality compares the two texts character by character.
pub assume_specification[ <str as PartialEq<str>>::eq ](a: &str, b: &str) -> (r: bool)
    ensures
        r == (a@ == b@),
;

/// `String::push` appends one character.
pub assume_specification[ String::push ](s: &mut String, c: char)
    ensures
        final(s)@ == old(s)@.push(c),
;

/// What `Debug` writes for a `str`: the text in quotes, with escapes.
pub uninterp spec fn str_debug(s: Seq<char>) -> Seq<char>;

/// Formats a `str` with `Debug`.
#[verifier::external_body]
pub(crate) fn debug_text(s: &str) -> (r: String)
    ensures
        r@ == str_debug(s@),
{
    format!("{s:?}")
}

// ---------------------------------------------------------------------------
// Characters
// ---------------------------------------------------------------------------

/// The Unicode `White_Space` property.
pub open spec fn is_white_space(c: char) -> bool {
    ||| '\u{9}' <= c <= '\u{d}'
    ||| c == ' '
    ||| c == '\u{85}'
    ||| c == '\u{a0}'
    ||| c == '\u{1680}'
    ||| '\u{2000}' <= c <= '\u{200a}'
    ||| c == '\u{2028}'
    ||| c == '\u{2029}'
    ||| c == '\u{202f}'
    ||| c == '\u{205f}'
    ||| c == '\u{3000}'
}

pub fn white_space(c: char) -> (r: bool)
    ensures
        r == is_white_space(c),
{
    ('\u{9}' <= c && c <= '\u{d}') || c == ' ' || c == '\u{85}' || c == '\u{a0}' || c == '\u{1680}'
        || ('\u{2000}' <= c && c <= '\u{200a}') || c == '\u{2028}' || c == '\u{2029}' || c
        == '\u{202f}' || c == '\u{205f}' || c == '\u{3000}'
}

/// `c` with an ASCII capital replaced by its small letter.
pub open spec fn ascii_lower(c: char) -> char {
    if 'A' <= c <= 'Z' {
        ((c as u8) + 32) as char
    } else {
        c
    }
}

/// `s` with every ASCII capital replaced by its small letter.
pub open spec fn ascii_lowercase(s: Seq<char>) -> Seq<char> {
    s.map_values(|c: char| ascii_lower(c))
}

fn lower(c: char) -> (r: char)
    ensures
        r == ascii_lower(c),
{
    if 'A' <= c && c <= 'Z' {
        ((c as u8) + 32) as char
    } else {
        c
    }
}

// ---------------------------------------------------------------------------
// Strings and character vectors
// ---------------------------------------------------------------------------

pub fn chars_of(s: &str) -> (r: Vec<char>)
    ensures
        r@ == s@,
{
    let mut out: Vec<char> = Vec::new();
    for c in it: s.chars()
        invariant
            out@ == it.seq().take(it.index()),
            it.seq() == s@,
    {
        out.push(c);
    }
    assert(out@ =~= s@);
    out
}

pub fn string_of(chars: &[char]) -> (r: String)
    ensures
        r@ == chars@,
{
    let mut out = String::new();
    for i in 0..chars.len()
        invariant
            out@ == chars@.take(i as int),
    {
        out.push(chars[i]);
        assert(out@ =~= chars@.take(i + 1));
    }
    assert(out@ =~= chars@);
    out
}

pub fn lowercase(s: &str) -> (r: String)
    ensures
        r@ == ascii_lowercase(s@),
{
    let mut out = String::new();
    for c in it: s.chars()
        invariant
            out@ == ascii_lowercase(it.seq().take(it.index())),
            it.seq() == s@,
    {
        out.push(lower(c));
        assert(out@ =~= ascii_lowercase(it.seq().take(it.index() + 1)));
    }
    assert(s@.take(s@.len() as int) =~= s@);
    out
}

/// Do the two texts agree?
pub fn same(a: &str, b: &str) -> (r: bool)
    ensures
        r == (a@ == b@),
{
    *a == *b
}

/// The characters `from..to` of `s`.
pub fn slice(s: &[char], from: usize, to: usize) -> (r: Vec<char>)
    requires
        from <= to <= s@.len(),
    ensures
        r@ == s@.subrange(from as int, to as int),
{
    let mut out: Vec<char> = Vec::new();
    for i in from..to
        invariant
            from <= to <= s@.len(),
            out@ == s@.subrange(from as int, i as int),
    {
        out.push(s[i]);
        assert(out@ =~= s@.subrange(from as int, i + 1));
    }
    assert(out@ =~= s@.subrange(from as int, to as int));
    out
}

// ---------------------------------------------------------------------------
// Trimming
// ---------------------------------------------------------------------------

/// The sets of characters that get trimmed off a text.
#[derive(Clone, Copy)]
pub enum CharClass {
    /// Unicode white space.
    Blank,
    /// Line feeds only.
    Newline,
    /// Slashes only.
    Slash,
    /// White space and `#`: what may follow the title in a closed heading.
    HashOrBlank,
}

impl CharClass {
    pub open spec fn has(self, c: char) -> bool {
        match self {
            CharClass::Blank => is_white_space(c),
            CharClass::Newline => c == '\n',
            CharClass::Slash => c == '/',
            CharClass::HashOrBlank => c == '#' || is_white_space(c),
        }
    }

    fn test(self, c: char) -> (r: bool)
        ensures
            r == self.has(c),
    {
        match self {
            CharClass::Blank => white_space(c),
            CharClass::Newline => c == '\n',
            CharClass::Slash => c == '/',
            CharClass::HashOrBlank => c == '#' || white_space(c),
        }
    }
}

/// `s` without its longest prefix of characters of `class`.
pub open spec fn trim_start(s: Seq<char>, class: CharClass) -> Seq<char>
    decreases s.len(),
{
    if s.len() > 0 && class.has(s[0]) {
        trim_start(s.drop_first(), class)
    } else {
        s
    }
}

/// `s` without its longest suffix of characters of `class`.
pub open spec fn trim_end(s: Seq<char>, class: CharClass) -> Seq<char>
    decreases s.len(),
{
    if s.len() > 0 && class.has(s.last()) {
        trim_end(s.drop_last(), class)
    } else {
        s
    }
}

/// `s` without leading and trailing white space.
pub open spec fn trim(s: Seq<char>) -> Seq<char> {
    trim_end(trim_start(s, CharClass::Blank), CharClass::Blank)
}

pub fn trimmed_start(s: &[char], class: CharClass) -> (r: Vec<char>)
    ensures
        r@ == trim_start(s@, class),
{
    let n: usize = s.len();
    let mut i: usize = 0;
    assert(s@.skip(0) =~= s@);
    while i < n && class.test(s[i])
        invariant
            i <= n == s@.len(),
            trim_start(s@, class) == trim_start(s@.skip(i as int), class),
        decreases n - i,
    {
        assert(s@.skip(i as int).drop_first() =~= s@.skip(i + 1));
        i = i + 1;
    }
    assert(s@.skip(i as int) =~= s@.subrange(i as int, n as int));
    slice(s, i, n)
}

pub fn trimmed_end(s: &[char], class: CharClass) -> (r: Vec<char>)
    ensures
        r@ == trim_end(s@, class),
{
    let mut n: usize = s.len();
    assert(s@.take(n as int) =~= s@);
    while n > 0 && class.test(s[n - 1])
        invariant
            n <= s@.len(),
            trim_end(s@, class) == trim_end(s@.take(n as int), class),
        decreases n,
    {
        assert(s@.take(n as int).drop_last() =~= s@.take(n - 1));
        n = n - 1;
    }
    assert(s@.take(n as int) =~= s@.subrange(0, n as int));
    slice(s, 0, n)
}

pub fn trimmed(s: &[char]) -> (r: Vec<char>)
    ensures
        r@ == trim(s@),
{
    let head = trimmed_start(s, CharClass::Blank);
    trimmed_end(&head, CharClass::Blank)
}

// ---------------------------------------------------------------------------
// Prefixes, suffixes and searching
// ---------------------------------------------------------------------------

/// Does `s` hold `part` from position `at` on?
pub open spec fn occurs_at(s: Seq<char>, part: Seq<char>, at: int) -> bool {
    0 <= at && at + part.len() <= s.len() && s.subrange(at, at + part.len()) == part
}

/// Does `s` begin with `part`?
pub open spec fn starts_with(s: Seq<char>, part: Seq<char>) -> bool {
    occurs_at(s, part, 0)
}

/// Does `s` end with `part`?
pub open spec fn ends_with(s: Seq<char>, part: Seq<char>) -> bool {
    occurs_at(s, part, s.len() - part.len())
}

pub fn found_at(s: &[char], part: &[char], at: usize) -> (r: bool)
    ensures
        r == occurs_at(s@, part@, at as int),
{
    let n: usize = s.len();
    if at > n || part.len() > n - at {
        return false;
    }
    for i in 0..part.len()
        invariant
            at + part@.len() <= s@.len() == n,
            s@.subrange(at as int, at + i) == part@.take(i as int),
    {
        if s[at + i] != part[i] {
            proof {
                let whole = s@.subrange(at as int, at + part@.len());
                assert(whole[i as int] == s@[at + i]);
            }
            return false;
        }
        assert(s@.subrange(at as int, at + i + 1) =~= s@.subrange(at as int, at + i).push(
            s@[at + i],
        ));
        assert(part@.take(i + 1) =~= part@.take(i as int).push(part@[i as int]));
    }
    assert(part@.take(part@.len() as int) =~= part@);
    true
}

pub fn has_prefix(s: &[char], part: &[char]) -> (r: bool)
    ensures
        r == starts_with(s@, part@),
{
    found_at(s, part, 0)
}

pub fn has_suffix(s: &[char], part: &[char]) -> (r: bool)
    ensures
        r == ends_with(s@, part@),
{
    if part.len() > s.len() {
        false
    } else {
        found_at(s, part, s.len() - part.len())
    }
}

/// The first position of `c` in `s`.
pub open spec fn first_of(s: Seq<char>, c: char) -> Option<int>
    decreases s.len(),
{
    if s.len() == 0 {
        None
    } else if s[0] == c {
        Some(0int)
    } else {
        match first_of(s.drop_first(), c) {
            Some(i) => Some(i + 1),
            None => None,
        }
    }
}

/// What `first_of` finds is the first position of `c`, and it finds one when
/// there is one.
pub proof fn first_of_is_first(s: Seq<char>, c: char)
    ensures
        match first_of(s, c) {
            Some(i) => 0 <= i < s.len() && s[i] == c && (forall|j: int| 0 <= j < i ==> s[j] != c),
            None => !s.contains(c),
        },
    decreases s.len(),
{
    if s.len() > 0 && s[0] != c {
        let rest = s.drop_first();
        first_of_is_first(rest, c);
        match first_of(rest, c) {
            Some(i) => {
                assert forall|j: int| 0 <= j < i + 1 implies s[j] != c by {
                    if j > 0 {
                        assert(rest[j - 1] == s[j]);
                    }
                }
            },
            None => {
                assert forall|j: int| 0 <= j < s.len() implies s[j] != c by {
                    if j > 0 {
                        assert(rest[j - 1] == s[j]);
                        assert(rest.contains(rest[j - 1]));
                    }
                }
            },
        }
    }
}

pub fn find_char(s: &[char], c: char) -> (r: Option<usize>)
    ensures
        match r {
            Some(i) => first_of(s@, c) == Some(i as int),
            None => first_of(s@, c) is None,
        },
{
    proof {
        first_of_is_first(s@, c);
    }
    for i in 0..s.len()
        invariant
            forall|j: int| 0 <= j < i ==> s@[j] != c,
            match first_of(s@, c) {
                Some(k) => 0 <= k < s@.len() && s@[k] == c && (forall|j: int|
                    0 <= j < k ==> s@[j] != c),
                None => !s@.contains(c),
            },
    {
        if s[i] == c {
            proof {
                assert(s@.contains(s@[i as int]));
                let k = first_of(s@, c)->0;
                assert(k == i);
            }
            return Some(i);
        }
    }
    None
}

/// The last position at which `s` holds `part`.
pub open spec fn last_of(s: Seq<char>, part: Seq<char>) -> Option<int> {
    last_of_up_to(s, part, s.len() as int)
}

/// The last position, `at` at most, at which `s` holds `part`.
pub open spec fn last_of_up_to(s: Seq<char>, part: Seq<char>, at: int) -> Option<int>
    decreases at + 1,
{
    if at < 0 {
        None
    } else if occurs_at(s, part, at) {
        Some(at)
    } else {
        last_of_up_to(s, part, at - 1)
    }
}

/// What `last_of` finds is a position at which `s` holds `part`.
pub proof fn last_of_is_inside(s: Seq<char>, part: Seq<char>)
    ensures
        last_of(s, part) matches Some(i) ==> occurs_at(s, part, i),
{
    last_of_up_to_is_inside(s, part, s.len() as int);
}

proof fn last_of_up_to_is_inside(s: Seq<char>, part: Seq<char>, at: int)
    ensures
        last_of_up_to(s, part, at) matches Some(i) ==> occurs_at(s, part, i),
    decreases at + 1,
{
    if at >= 0 && !occurs_at(s, part, at) {
        last_of_up_to_is_inside(s, part, at - 1);
    }
}

pub fn rfind(s: &[char], part: &[char]) -> (r: Option<usize>)
    ensures
        match r {
            Some(i) => last_of(s@, part@) == Some(i as int),
            None => last_of(s@, part@) is None,
        },
{
    let mut at: usize = s.len();
    while at > 0
        invariant
            at <= s@.len(),
            last_of(s@, part@) == last_of_up_to(s@, part@, at as int),
        decreases at,
    {
        if found_at(s, part, at) {
            return Some(at);
        }
        at = at - 1;
    }
    if found_at(s, part, 0) {
        Some(0)
    } else {
        proof {
            reveal_with_fuel(last_of_up_to, 2);
        }
        None
    }
}

// ---------------------------------------------------------------------------
// Lines
// ---------------------------------------------------------------------------

/// `s` without a trailing carriage return.
pub open spec fn without_cr(s: Seq<char>) -> Seq<char> {
    if s.len() > 0 && s.last() == '\r' {
        s.drop_last()
    } else {
        s
    }
}

/// The lines of `s`: what stands between line feeds, each without the carriage
/// return that belongs to its line feed. A final line feed ends the last line
/// and opens no further one.
pub open spec fn lines(s: Seq<char>) -> Seq<Seq<char>>
    decreases s.len(),
    via lines_shrink
{
    if s.len() == 0 {
        Seq::empty()
    } else {
        match first_of(s, '\n') {
            None => seq![s],
            Some(i) => seq![without_cr(s.take(i))] + lines(s.skip(i + 1)),
        }
    }
}

#[via_fn]
proof fn lines_shrink(s: Seq<char>) {
    first_of_is_first(s, '\n');
}

/// The lines of `s`, as character vectors.
pub fn lines_of(s: &[char]) -> (r: Vec<Vec<char>>)
    ensures
        r@.map_values(|l: Vec<char>| l@) == lines(s@),
{
    let mut out: Vec<Vec<char>> = Vec::new();
    let n: usize = s.len();
    let mut at: usize = 0;
    assert(s@.skip(0) =~= s@);
    assert(out@.map_values(|l: Vec<char>| l@) + lines(s@.skip(0)) =~= lines(s@));
    while at < n
        invariant
            at <= n == s@.len(),
            out@.map_values(|l: Vec<char>| l@) + lines(s@.skip(at as int)) == lines(s@),
        decreases n - at,
    {
        let rest = slice(s, at, n);
        assert(rest@ =~= s@.skip(at as int));
        let ghost before = out@.map_values(|l: Vec<char>| l@);
        match find_char(&rest, '\n') {
            None => {
                out.push(rest);
                proof {
                    assert(out@.map_values(|l: Vec<char>| l@) =~= before.push(rest@));
                    assert(s@.skip(n as int).len() == 0);
                    assert(before + seq![rest@] =~= before.push(rest@) + lines(s@.skip(n as int)));
                }
                at = n;
            },
            Some(i) => {
                proof {
                    first_of_is_first(rest@, '\n');
                }
                let end: usize = if i > 0 && rest[i - 1] == '\r' {
                    i - 1
                } else {
                    i
                };
                let line = slice(&rest, 0, end);
                proof {
                    assert(line@ =~= without_cr(rest@.take(i as int)));
                    assert(rest@.skip(i + 1) =~= s@.skip(at + i + 1));
                }
                out.push(line);
                proof {
                    assert(out@.map_values(|l: Vec<char>| l@) =~= before.push(line@));
                    assert(before + (seq![line@] + lines(s@.skip(at + i + 1))) =~= before.push(
                        line@,
                    ) + lines(s@.skip(at + i + 1)));
                }
                at = at + i + 1;
            },
        }
    }
    assert(s@.skip(n as int).len() == 0);
    assert(out@.map_values(|l: Vec<char>| l@) + lines(s@.skip(n as int)) =~= out@.map_values(
        |l: Vec<char>| l@,
    ));
    out
}

// ---------------------------------------------------------------------------
// Order
// ---------------------------------------------------------------------------

/// The order of a dictionary, by code point.
pub open spec fn text_less(a: Seq<char>, b: Seq<char>) -> bool
    decreases a.len(),
{
    if b.len() == 0 {
        false
    } else if a.len() == 0 {
        true
    } else if a[0] != b[0] {
        a[0] < b[0]
    } else {
        text_less(a.drop_first(), b.drop_first())
    }
}

/// Of two texts exactly one holds: they are equal, or one comes before the
/// other.
pub proof fn text_order_is_total(a: Seq<char>, b: Seq<char>)
    ensures
        a == b ==> !text_less(a, b) && !text_less(b, a),
        a != b ==> (text_less(a, b) <==> !text_less(b, a)),
    decreases a.len(),
{
    if a.len() > 0 && b.len() > 0 && a[0] == b[0] {
        text_order_is_total(a.drop_first(), b.drop_first());
        if a.drop_first() == b.drop_first() {
            assert(a =~= seq![a[0]] + a.drop_first());
            assert(b =~= seq![b[0]] + b.drop_first());
        }
    } else if a.len() == 0 && b.len() == 0 {
        assert(a =~= b);
    }
}

/// What comes before a text that comes before a third comes before the third.
pub proof fn text_order_is_transitive(a: Seq<char>, b: Seq<char>, c: Seq<char>)
    requires
        text_less(a, b),
        text_less(b, c),
    ensures
        text_less(a, c),
    decreases a.len(),
{
    if a.len() > 0 && b.len() > 0 && c.len() > 0 && a[0] == b[0] && b[0] == c[0] {
        text_order_is_transitive(a.drop_first(), b.drop_first(), c.drop_first());
    }
}

/// Does `a` come before `b`?
pub fn comes_before(a: &str, b: &str) -> (r: bool)
    ensures
        r == text_less(a@, b@),
{
    let x = chars_of(a);
    let y = chars_of(b);
    let mut i: usize = 0;
    assert(x@.skip(0) =~= x@ && y@.skip(0) =~= y@);
    while i < x.len() && i < y.len() && x[i] == y[i]
        invariant
            i <= x@.len(),
            i <= y@.len(),
            text_less(x@, y@) == text_less(x@.skip(i as int), y@.skip(i as int)),
        decreases x@.len() - i,
    {
        assert(x@.skip(i as int).drop_first() =~= x@.skip(i + 1));
        assert(y@.skip(i as int).drop_first() =~= y@.skip(i + 1));
        i = i + 1;
    }
    if i >= y.len() {
        false
    } else if i >= x.len() {
        true
    } else {
        x[i] < y[i]
    }
}

// ---------------------------------------------------------------------------
// Joining and replacing
// ---------------------------------------------------------------------------

/// The parts with `sep` between them.
pub open spec fn joined(parts: Seq<Seq<char>>, sep: Seq<char>) -> Seq<char>
    decreases parts.len(),
{
    if parts.len() == 0 {
        Seq::empty()
    } else if parts.len() == 1 {
        parts[0]
    } else {
        joined(parts.drop_last(), sep) + sep + parts.last()
    }
}

/// What a list of strings stands for.
pub open spec fn texts(parts: Seq<String>) -> Seq<Seq<char>> {
    parts.map_values(|s: String| s@)
}

pub fn join(parts: &Vec<String>, sep: &str) -> (r: String)
    ensures
        r@ == joined(texts(parts@), sep@),
{
    let ghost all = texts(parts@);
    let mut out = String::new();
    assert(all.take(0) =~= Seq::<Seq<char>>::empty());
    assert(out@ =~= joined(all.take(0), sep@));
    for i in 0..parts.len()
        invariant
            all == texts(parts@),
            out@ == joined(all.take(i as int), sep@),
    {
        assert(all.take(i + 1).drop_last() =~= all.take(i as int));
        assert(all.take(i + 1).last() == parts@[i as int]@);
        if i == 0 {
            out = parts[i].clone();
        } else {
            out = out.concat(sep).concat(parts[i].as_str());
        }
    }
    assert(all.take(all.len() as int) =~= all);
    out
}

/// `s` with `to` in every place of `from`.
pub open spec fn replaced(s: Seq<char>, from: char, to: char) -> Seq<char> {
    s.map_values(
        |c: char|
            if c == from {
                to
            } else {
                c
            },
    )
}

pub fn replace(s: &[char], from: char, to: char) -> (r: Vec<char>)
    ensures
        r@ == replaced(s@, from, to),
{
    let mut out: Vec<char> = Vec::new();
    for i in 0..s.len()
        invariant
            out@ == replaced(s@, from, to).take(i as int),
    {
        let c = if s[i] == from {
            to
        } else {
            s[i]
        };
        out.push(c);
        assert(out@ =~= replaced(s@, from, to).take(i + 1));
    }
    assert(out@ =~= replaced(s@, from, to));
    out
}

/// The capital of a small letter without accent; any other character.
pub open spec fn ascii_upper(c: char) -> char {
    if 'a' <= c && c <= 'z' {
        (c as u32 - 32) as char
    } else {
        c
    }
}

/// What `char::to_uppercase` yields for a character.
pub uninterp spec fn char_upper(c: char) -> Seq<char>;

/// Calls `char::to_uppercase` and collects what it yields. Below 128 that is one
/// character: the capital of a small letter, and any other as it is.
#[verifier::external_body]
pub(crate) fn upper(c: char) -> (r: String)
    ensures
        r@ == char_upper(c),
        (c as u32) < 128 ==> r@ == seq![ascii_upper(c)],
{
    c.to_uppercase().collect()
}

// ---------------------------------------------------------------------------
// Numbers
// ---------------------------------------------------------------------------

/// The character for a digit below ten.
pub open spec fn digit_char(d: int) -> char {
    (48 + d) as char
}

/// `n` in decimal, without leading zeros.
pub open spec fn decimal(n: nat) -> Seq<char>
    decreases n,
{
    if n < 10 {
        seq![digit_char(n as int)]
    } else {
        decimal(n / 10).push(digit_char((n % 10) as int))
    }
}

pub fn decimal_text(n: u64) -> (r: String)
    ensures
        r@ == decimal(n as nat),
{
    wide_decimal_text(n as u128)
}

fn wide_decimal_text(n: u128) -> (r: String)
    ensures
        r@ == decimal(n as nat),
    decreases n,
{
    let d: u8 = (n % 10) as u8;
    let c: char = (48 + d) as char;
    assert(c == digit_char((n % 10) as int));
    if n < 10 {
        let mut out = String::new();
        out.push(c);
        assert(out@ =~= seq![c]);
        out
    } else {
        let mut out = wide_decimal_text(n / 10);
        out.push(c);
        out
    }
}

/// The whole number in decimal, with a sign where it is negative.
pub open spec fn signed_decimal(i: int) -> Seq<char> {
    if i < 0 {
        seq!['-'] + decimal((-i) as nat)
    } else {
        decimal(i as nat)
    }
}

pub fn signed_decimal_text(i: i128) -> (r: String)
    ensures
        r@ == signed_decimal(i as int),
{
    if i < 0 {
        let n: u128 = (-(i + 1)) as u128 + 1;
        let out = String::from_str("-").concat(wide_decimal_text(n).as_str());
        proof {
            reveal_strlit("-");
            assert("-"@ =~= seq!['-']);
        }
        out
    } else {
        wide_decimal_text(i as u128)
    }
}

/// Is the text made of digits, and of one at least?
pub open spec fn all_digits(s: Seq<char>) -> bool {
    s.len() > 0 && forall|i: int| 0 <= i < s.len() ==> '0' <= #[trigger] s[i] <= '9'
}

/// A number is written in digits.
pub proof fn decimal_is_digits(n: nat)
    ensures
        all_digits(decimal(n)),
    decreases n,
{
    if n >= 10 {
        decimal_is_digits(n / 10);
    }
}

} // verus!
