//! Decimal numbers carried as text.
//!
//! Page sizes, box coordinates and timings travel through the library
//! unchanged: they are read, stored and written, never computed with. They are
//! held as the decimal text of a double-precision number, so that a value is
//! the same number wherever it comes out again.

use crate::text::{
    all_digits, decimal, decimal_is_digits, decimal_text, digit_char, same, signed_decimal,
    signed_decimal_text,
};
use vstd::prelude::*;

verus! {

/// What `str::parse` and `to_string` of a double-precision number make of a
/// text: the shortest decimal text of the number that `text` denotes, `None`
/// where it denotes none.
pub uninterp spec fn double_text(text: Seq<char>) -> Option<Seq<char>>;

/// Do digits stand on both sides of a point at position `k`?
pub open spec fn point_at(s: Seq<char>, k: int) -> bool {
    &&& 0 <= k < s.len()
    &&& s[k] == '.'
    &&& all_digits(s.take(k))
    &&& all_digits(s.skip(k + 1))
}

/// The text behind a minus at its start, if there is one.
pub open spec fn without_sign(text: Seq<char>) -> Seq<char> {
    if text.len() > 0 && text[0] == '-' {
        text.skip(1)
    } else {
        text
    }
}

/// Is the text a number in plain decimal notation: a minus if it is negative, digits,
/// and more digits behind a point if there is one?
pub open spec fn is_plain_decimal(text: Seq<char>) -> bool {
    all_digits(without_sign(text)) || exists|k: int| point_at(without_sign(text), k)
}

/// Calls `str::parse` for a double-precision number and `to_string` on the
/// result; no such number is held in between. Plain decimal notation always denotes
/// a number. The text that comes out denotes the same number, so reading it again
/// changes nothing.
#[verifier::external_body]
fn read_double(text: &str) -> (r: Option<String>)
    ensures
        match r {
            Some(t) => double_text(text@) == Some(t@) && double_text(t@) == Some(t@),
            None => double_text(text@) is None && !is_plain_decimal(text@),
        },
{
    text.parse().ok().and_then(|v| kdl::KdlValue::Float(v).as_float()).map(|v| v.to_string())
}

/// A number with two decimal places, as it is written.
pub open spec fn with_cents(whole: u32, cents: u8) -> Seq<char> {
    decimal(whole as nat) + seq!['.', digit_char(cents as int / 10), digit_char(cents as int % 10)]
}

/// Is this the text of zero, of either sign?
pub open spec fn is_zero(text: Seq<char>) -> bool {
    text == "0"@ || text == "-0"@
}

/// Are the numbers with these shortest decimal texts equal? What is not a number
/// equals nothing, and zero has a second text.
pub open spec fn equal_numbers(a: Seq<char>, b: Seq<char>) -> bool {
    a != "NaN"@ && (a == b || (is_zero(a) && is_zero(b)))
}

/// A number, held as its shortest decimal text.
#[derive(Debug, PartialEq)]
pub struct Real {
    text: String,
}

impl View for Real {
    type V = Seq<char>;

    closed spec fn view(&self) -> Seq<char> {
        self.text@
    }
}

impl Real {
    #[verifier::type_invariant]
    spec fn is_shortest(self) -> bool {
        double_text(self.text@) == Some(self.text@)
    }

    /// The number that `text` denotes.
    pub fn parse(text: &str) -> (r: Option<Real>)
        ensures
            match r {
                Some(v) => double_text(text@) == Some(v@),
                None => double_text(text@) is None,
            },
    {
        match read_double(text) {
            Some(t) => Some(Real { text: t }),
            None => None,
        }
    }

    /// The double-precision number nearest to a whole number.
    pub fn from_whole(i: i128) -> (r: Real)
        ensures
            double_text(signed_decimal(i as int)) == Some(r@),
    {
        let text = signed_decimal_text(i);
        proof {
            let size = if i < 0 {
                decimal((-i) as nat)
            } else {
                decimal(i as nat)
            };
            decimal_is_digits((-i) as nat);
            decimal_is_digits(i as nat);
            assert(without_sign(text@) =~= size);
        }
        Real { text: read_double(text.as_str()).unwrap() }
    }

    /// The number with these two decimal places.
    pub fn from_cents(whole: u32, cents: u8) -> (r: Real)
        requires
            cents < 100,
        ensures
            double_text(with_cents(whole, cents)) == Some(r@),
    {
        let mut text = decimal_text(whole as u64);
        text.push('.');
        text.push((48 + cents / 10) as char);
        text.push((48 + cents % 10) as char);
        proof {
            let digits = decimal(whole as nat);
            decimal_is_digits(whole as nat);
            assert(text@ =~= with_cents(whole, cents));
            assert(text@.take(digits.len() as int) =~= digits);
            let rest = text@.skip(digits.len() as int + 1);
            assert(rest =~= seq![
                digit_char(cents as int / 10),
                digit_char(cents as int % 10),
            ]);
            assert(text@[0] == digits[0] && '0' <= digits[0] <= '9');
            assert(without_sign(text@) == text@);
            assert(point_at(without_sign(text@), digits.len() as int));
        }
        Real { text: read_double(text.as_str()).unwrap() }
    }

    /// Wrap a text that is a shortest decimal text already.
    pub(crate) fn from_shortest(text: String) -> (r: Real)
        requires
            double_text(text@) == Some(text@),
        ensures
            r@ == text@,
    {
        Real { text }
    }

    /// The decimal text.
    pub fn text(&self) -> (r: &str)
        ensures
            r@ == self@,
            double_text(self@) == Some(self@),
    {
        proof {
            use_type_invariant(&*self);
        }
        self.text.as_str()
    }

    pub fn copy(&self) -> (r: Real)
        ensures
            r@ == self@,
    {
        proof {
            use_type_invariant(&*self);
        }
        Real { text: self.text.clone() }
    }

    /// Are the two numbers equal?
    pub fn same(&self, other: &Real) -> (r: bool)
        ensures
            r == equal_numbers(self@, other@),
    {
        let a = self.text.as_str();
        let b = other.text.as_str();
        let zeros = (same(a, "0") || same(a, "-0")) && (same(b, "0") || same(b, "-0"));
        !same(a, "NaN") && (same(a, b) || zeros)
    }
}

impl Clone for Real {
    fn clone(&self) -> (r: Self)
        ensures
            r@ == self@,
    {
        self.copy()
    }
}

} // verus!
