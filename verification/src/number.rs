//! Numbers as JSON and YAML documents hold them.

use crate::text::push_char;
use vstd::prelude::*;
use vstd::string::StringExecFns;

verus! {

/// A number of a document: a non-negative integer, a negative integer, or a
/// float kept as the decimal text that the document library prints for it.
#[derive(Debug)]
pub enum Numeral {
    PosInt(u64),
    NegInt(i64),
    Float(String),
}

/// The mathematical value of a [`Numeral`].
pub enum NumeralView {
    PosInt(u64),
    NegInt(i64),
    Float(Seq<char>),
}

impl View for Numeral {
    type V = NumeralView;

    open spec fn view(&self) -> NumeralView {
        match self {
            Numeral::PosInt(u) => NumeralView::PosInt(*u),
            Numeral::NegInt(i) => NumeralView::NegInt(*i),
            Numeral::Float(text) => NumeralView::Float(text@),
        }
    }
}

impl Clone for Numeral {
    fn clone(&self) -> (r: Numeral)
        ensures
            r@ == self@,
    {
        match self {
            Numeral::PosInt(u) => Numeral::PosInt(*u),
            Numeral::NegInt(i) => Numeral::NegInt(*i),
            Numeral::Float(text) => Numeral::Float(text.clone()),
        }
    }
}

impl Numeral {
    /// The number as a `usize`, where it is a non-negative integer that fits.
    pub fn as_usize(&self) -> (r: Option<usize>)
        ensures
            r == number_as_usize(self@),
    {
        match self {
            Numeral::PosInt(u) => {
                if *u <= usize::MAX as u64 {
                    Some(*u as usize)
                } else {
                    None
                }
            },
            _ => None,
        }
    }
}

/// The `usize` that a number stands for, if any.
pub open spec fn number_as_usize(n: NumeralView) -> Option<usize> {
    match n {
        NumeralView::PosInt(u) => if u <= usize::MAX {
            Some(u as usize)
        } else {
            None
        },
        _ => None,
    }
}

/// The character of a decimal digit.
pub open spec fn digit(d: int) -> char {
    if d == 0 {
        '0'
    } else if d == 1 {
        '1'
    } else if d == 2 {
        '2'
    } else if d == 3 {
        '3'
    } else if d == 4 {
        '4'
    } else if d == 5 {
        '5'
    } else if d == 6 {
        '6'
    } else if d == 7 {
        '7'
    } else if d == 8 {
        '8'
    } else {
        '9'
    }
}

/// A natural number in decimal digits, without leading zeros.
pub open spec fn decimal(n: nat) -> Seq<char>
    decreases n,
{
    if n < 10 {
        seq![digit(n as int)]
    } else {
        decimal(n / 10).push(digit((n % 10) as int))
    }
}

/// A number as text: an integer in decimal digits, with a minus sign where
/// it is negative, and a float by the text that it is kept as.
pub open spec fn numeral_text(n: NumeralView) -> Seq<char> {
    match n {
        NumeralView::PosInt(u) => decimal(u as nat),
        NumeralView::NegInt(i) => if i < 0 {
            seq!['-'] + decimal((-i) as nat)
        } else {
            decimal(i as nat)
        },
        NumeralView::Float(text) => text,
    }
}

/// The character of a decimal digit.
fn digit_char(d: u64) -> (c: char)
    requires
        d < 10,
    ensures
        c == digit(d as int),
{
    if d == 0 {
        '0'
    } else if d == 1 {
        '1'
    } else if d == 2 {
        '2'
    } else if d == 3 {
        '3'
    } else if d == 4 {
        '4'
    } else if d == 5 {
        '5'
    } else if d == 6 {
        '6'
    } else if d == 7 {
        '7'
    } else if d == 8 {
        '8'
    } else {
        '9'
    }
}

/// Appends a natural number in decimal digits.
fn push_decimal(out: &mut String, n: u64)
    ensures
        final(out)@ == old(out)@ + decimal(n as nat),
    decreases n,
{
    if n >= 10 {
        push_decimal(out, n / 10);
    }
    push_char(out, digit_char(n % 10));
    assert(out@ =~= old(out)@ + decimal(n as nat));
}

impl Numeral {
    /// The number as text.
    pub fn to_text(&self) -> (text: String)
        ensures
            text@ == numeral_text(self@),
    {
        let mut text = String::new();
        match self {
            Numeral::PosInt(u) => {
                push_decimal(&mut text, *u);
            },
            Numeral::NegInt(i) => {
                if *i < 0 {
                    push_char(&mut text, '-');
                    let magnitude: u64 = if *i == i64::MIN {
                        9223372036854775808u64
                    } else {
                        (-*i) as u64
                    };
                    push_decimal(&mut text, magnitude);
                } else {
                    push_decimal(&mut text, *i as u64);
                }
            },
            Numeral::Float(float) => {
                text.append(float.as_str());
            },
        }
        assert(text@ =~= numeral_text(self@));
        text
    }
}

} // verus!
