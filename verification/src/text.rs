//! Decimal text: digits of whole numbers and ratios shown to two decimals.

use vstd::prelude::*;
use vstd::string::*;

verus! {

/// `String::push` appends one character to the end of the string.
pub assume_specification[ String::push ](s: &mut String, c: char)
    ensures
        final(s)@ == old(s)@.push(c),
;

/// The character that stands for a single decimal digit.
pub open spec fn digit(d: nat) -> char {
    if d == 0 {
        '0'
    } else if d == 1 {
        '1'
    } else if d == 2 {
        '2'
    } else if d == 3 {
        '3'
    } else if d == 4 {
        '4'
    } else if d == 5 {
        '5'
    } else if d == 6 {
        '6'
    } else if d == 7 {
        '7'
    } else if d == 8 {
        '8'
    } else {
        '9'
    }
}

/// The decimal digits of `n`, most significant first, without leading zeros.
pub open spec fn decimal(n: nat) -> Seq<char>
    decreases n,
{
    if n < 10 {
        seq![digit(n)]
    } else {
        decimal(n / 10).push(digit(n % 10))
    }
}

/// A quotient as it is shown in a report.
#[derive(Clone, Copy, Debug, PartialEq, Eq, Structural)]
pub enum Ratio {
    /// The quotient in hundredths, rounded to the nearest, ties to the even one.
    Hundredths(u128),
    /// A positive number over zero.
    Unbounded,
    /// Zero over zero.
    Undefined,
}

/// `num / den` in hundredths, rounded to the nearest hundredth; a tie goes
/// to the even neighbour.
pub open spec fn rounded_hundredths(num: nat, den: nat) -> nat
    recommends
        den > 0,
{
    let whole = (num * 100) / den;
    let rest = (num * 100) % den;
    if 2 * rest > den || (2 * rest == den && whole % 2 == 1) {
        whole + 1
    } else {
        whole
    }
}

/// The quotient of two counts, with the two divisions by zero told apart.
pub open spec fn ratio_of(num: nat, den: nat) -> Ratio {
    if den > 0 {
        Ratio::Hundredths(rounded_hundredths(num, den) as u128)
    } else if num > 0 {
        Ratio::Unbounded
    } else {
        Ratio::Undefined
    }
}

/// The largest numerator that `Ratio::of` takes: a hundred times as much
/// still fits in 128 bits.
pub const RATIO_NUMERATOR_MAX: u128 = 3_402_823_669_209_384_634_633_746_074_317_682_114;

impl Ratio {
    /// The text of the ratio: the whole part, a point and two decimals, or
    /// `inf` and `NaN` for the divisions by zero.
    pub open spec fn text(self) -> Seq<char> {
        match self {
            Ratio::Hundredths(h) => decimal((h / 100) as nat).push('.').push(
                digit(((h / 10) % 10) as nat),
            ).push(digit((h % 10) as nat)),
            Ratio::Unbounded => "inf"@,
            Ratio::Undefined => "NaN"@,
        }
    }

    /// Divides `num` by `den` and rounds to hundredths.
    pub fn of(num: u128, den: u128) -> (r: Ratio)
        requires
            num <= RATIO_NUMERATOR_MAX,
        ensures
            r == ratio_of(num as nat, den as nat),
    {
        if den == 0 {
            if num == 0 {
                Ratio::Undefined
            } else {
                Ratio::Unbounded
            }
        } else {
            let scaled: u128 = num * 100;
            let whole: u128 = scaled / den;
            let rest: u128 = scaled % den;
            assert(whole <= scaled) by (nonlinear_arith)
                requires
                    whole == scaled / den,
                    den >= 1,
            ;
            // `2 * rest` may not fit: compare `rest` with what is left of `den`.
            let above_half: bool = rest > den - rest;
            let at_half: bool = rest == den - rest;
            if above_half || (at_half && whole % 2 == 1) {
                Ratio::Hundredths(whole + 1)
            } else {
                Ratio::Hundredths(whole)
            }
        }
    }

    /// Writes the ratio out, followed by `unit`.
    pub fn render(self, unit: &str) -> (s: String)
        ensures
            s@ == self.text() + unit@,
    {
        let mut s: String = String::new();
        match self {
            Ratio::Hundredths(h) => {
                push_decimal(&mut s, h / 100);
                s.push('.');
                s.push(digit_of(((h / 10) % 10) as u8));
                s.push(digit_of((h % 10) as u8));
            },
            Ratio::Unbounded => {
                s.append("inf");
            },
            Ratio::Undefined => {
                s.append("NaN");
            },
        }
        s.append(unit);
        s
    }
}

/// The character of one decimal digit.
pub fn digit_of(d: u8) -> (c: char)
    requires
        d < 10,
    ensures
        c == digit(d as nat),
{
    if d == 0 {
        '0'
    } else if d == 1 {
        '1'
    } else if d == 2 {
        '2'
    } else if d == 3 {
        '3'
    } else if d == 4 {
        '4'
    } else if d == 5 {
        '5'
    } else if d == 6 {
        '6'
    } else if d == 7 {
        '7'
    } else if d == 8 {
        '8'
    } else {
        '9'
    }
}

/// Appends the decimal digits of `n` to `s`.
pub fn push_decimal(s: &mut String, n: u128)
    ensures
        final(s)@ == old(s)@ + decimal(n as nat),
    decreases n,
{
    if n >= 10 {
        push_decimal(s, n / 10);
    }
    s.push(digit_of((n % 10) as u8));
}

/// The decimal digits of `n` as a string.
pub fn decimal_text(n: u128) -> (s: String)
    ensures
        s@ == decimal(n as nat),
{
    let mut s: String = String::new();
    push_decimal(&mut s, n);
    s
}

} // verus!
