//! Arbitrary-precision numbers. A `Number` holds, as plain values, the parts
//! of an astro-float value; the arithmetic itself is astro-float's.

use crate::format::{display_decimal, display_text, is_digits, Sign};
use astro_float::{BigFloat, Consts, Radix, RoundingMode};
use astro_float::Sign as BigSign;
use vstd::prelude::*;

verus! {

/// Working precision of numbers, in bits.
pub const PREC: usize = 128;

/// A number: a binary floating-point value with its mantissa words, the count
/// of significant bits, sign, binary exponent and inexact flag; or an infinity;
/// or not a number.
#[derive(Debug, Clone, PartialEq)]
pub enum Number {
    Finite { sign: Sign, mantissa: Vec<u64>, bits: usize, exponent: i32, inexact: bool },
    Infinite(Sign),
    NotANumber,
}

/// What a `Number` holds.
pub enum NumberView {
    Finite { sign: Sign, mantissa: Seq<u64>, bits: nat, exponent: int, inexact: bool },
    Infinite(Sign),
    NotANumber,
}

impl View for Number {
    type V = NumberView;

    open spec fn view(&self) -> NumberView {
        match self {
            Number::Finite { sign, mantissa, bits, exponent, inexact } => NumberView::Finite {
                sign: *sign,
                mantissa: mantissa@,
                bits: *bits as nat,
                exponent: *exponent as int,
                inexact: *inexact,
            },
            Number::Infinite(s) => NumberView::Infinite(*s),
            Number::NotANumber => NumberView::NotANumber,
        }
    }
}

impl Number {
    /// A copy of the number.
    pub fn copy(&self) -> (r: Number)
        ensures
            r@ == self@,
    {
        match self {
            Number::Finite { sign, mantissa, bits, exponent, inexact } => {
                let m = mantissa.clone();
                assert(m@ =~= mantissa@);
                Number::Finite {
                    sign: *sign,
                    mantissa: m,
                    bits: *bits,
                    exponent: *exponent,
                    inexact: *inexact,
                }
            },
            Number::Infinite(s) => Number::Infinite(*s),
            Number::NotANumber => Number::NotANumber,
        }
    }

    /// The integer `i` at the working precision.
    pub fn from_i32(i: i32) -> (r: Number)
        ensures
            r@ == integer_of(i as int),
    {
        number_from_i32(i)
    }
}

#[verifier::external_type_specification]
#[verifier::external_body]
pub struct ExBigFloat(BigFloat);

/// What astro-float's `BigFloat::from_i32` gives at the working precision.
pub uninterp spec fn integer_of(i: int) -> NumberView;

/// What `BigFloat::add` gives at the working precision, rounding to even.
pub uninterp spec fn sum_of(a: NumberView, b: NumberView) -> NumberView;

/// What `BigFloat::sub` gives at the working precision, rounding to even.
pub uninterp spec fn difference_of(a: NumberView, b: NumberView) -> NumberView;

/// What `BigFloat::mul` gives at the working precision, rounding to even.
pub uninterp spec fn product_of(a: NumberView, b: NumberView) -> NumberView;

/// What `BigFloat::div` gives at the working precision, rounding to even.
pub uninterp spec fn quotient_of(a: NumberView, b: NumberView) -> NumberView;

/// What `BigFloat::pow` gives at the working precision, rounding to even.
pub uninterp spec fn power_of(a: NumberView, b: NumberView) -> NumberView;

/// What `BigFloat::neg` gives.
pub uninterp spec fn negation_of(a: NumberView) -> NumberView;

/// What `BigFloat::sqrt` gives at the working precision, rounding to even.
pub uninterp spec fn sqrt_of(a: NumberView) -> NumberView;

/// What `BigFloat::sin` gives at the working precision, rounding to even.
pub uninterp spec fn sin_of(a: NumberView) -> NumberView;

/// What `BigFloat::cos` gives at the working precision, rounding to even.
pub uninterp spec fn cos_of(a: NumberView) -> NumberView;

/// What `BigFloat::tan` gives at the working precision, rounding to even.
pub uninterp spec fn tan_of(a: NumberView) -> NumberView;

/// What `BigFloat::parse` gives for decimal text at the working precision.
pub uninterp spec fn parsed_of(s: Seq<char>) -> NumberView;

/// What `BigFloat::convert_to_radix` gives in base ten, rounding to even:
/// sign, digits `d1 d2 ...` and exponent `e` with value `0.d1d2... * 10^e`.
pub uninterp spec fn decimal_of(a: NumberView) -> Option<(Sign, Seq<u8>, int)>;

/// Converts the parts into astro-float's `BigFloat::from_raw_parts`, or its
/// infinities and NaN.
#[verifier::external_body]
fn to_big(n: &Number) -> BigFloat {
    match n {
        Number::Finite { sign, mantissa, bits, exponent, inexact } => {
            let s = match sign {
                Sign::Neg => BigSign::Neg,
                Sign::Pos => BigSign::Pos,
            };
            BigFloat::from_raw_parts(mantissa, *bits, s, *exponent, *inexact)
        },
        Number::Infinite(Sign::Pos) => astro_float::INF_POS,
        Number::Infinite(Sign::Neg) => astro_float::INF_NEG,
        Number::NotANumber => astro_float::NAN,
    }
}

/// Decomposes a value with astro-float's `BigFloat::sign` (absent for NaN)
/// and `BigFloat::as_raw_parts` (absent for infinities).
#[verifier::external_body]
fn from_big(b: &BigFloat) -> Number {
    let sign = |s: BigSign| match s {
        BigSign::Neg => Sign::Neg,
        BigSign::Pos => Sign::Pos,
    };
    match (b.sign(), b.as_raw_parts()) {
        (None, _) => Number::NotANumber,
        (Some(s), None) => Number::Infinite(sign(s)),
        (Some(_), Some((m, n, s, e, i))) => Number::Finite {
            sign: sign(s),
            mantissa: m.to_vec(),
            bits: n,
            exponent: e,
            inexact: i,
        },
    }
}

/// Relies on astro-float's `BigFloat::from_i32`.
#[verifier::external_body]
fn number_from_i32(i: i32) -> (r: Number)
    ensures
        r@ == integer_of(i as int),
{
    from_big(&BigFloat::from_i32(i, PREC))
}

/// Relies on astro-float's `BigFloat::add`.
#[verifier::external_body]
pub(crate) fn num_add(a: &Number, b: &Number) -> (r: Number)
    ensures
        r@ == sum_of(a@, b@),
{
    from_big(&to_big(a).add(&to_big(b), PREC, RoundingMode::ToEven))
}

/// Relies on astro-float's `BigFloat::sub`.
#[verifier::external_body]
pub(crate) fn num_sub(a: &Number, b: &Number) -> (r: Number)
    ensures
        r@ == difference_of(a@, b@),
{
    from_big(&to_big(a).sub(&to_big(b), PREC, RoundingMode::ToEven))
}

/// Relies on astro-float's `BigFloat::mul`.
#[verifier::external_body]
pub(crate) fn num_mul(a: &Number, b: &Number) -> (r: Number)
    ensures
        r@ == product_of(a@, b@),
{
    from_big(&to_big(a).mul(&to_big(b), PREC, RoundingMode::ToEven))
}

/// Relies on astro-float's `BigFloat::div`.
#[verifier::external_body]
pub(crate) fn num_div(a: &Number, b: &Number) -> (r: Number)
    ensures
        r@ == quotient_of(a@, b@),
{
    from_big(&to_big(a).div(&to_big(b), PREC, RoundingMode::ToEven))
}

/// Relies on astro-float's `BigFloat::pow`; its `Consts::new` fails only when
/// memory cannot be allocated, as do those below.
#[verifier::external_body]
pub(crate) fn num_pow(a: &Number, b: &Number) -> (r: Number)
    ensures
        r@ == power_of(a@, b@),
{
    from_big(&to_big(a).pow(&to_big(b), PREC, RoundingMode::ToEven, &mut Consts::new().expect("constants cache")))
}

/// Relies on astro-float's `BigFloat::neg`.
#[verifier::external_body]
pub(crate) fn num_neg(a: &Number) -> (r: Number)
    ensures
        r@ == negation_of(a@),
{
    from_big(&to_big(a).neg())
}

/// Relies on astro-float's `BigFloat::sqrt`.
#[verifier::external_body]
pub(crate) fn num_sqrt(a: &Number) -> (r: Number)
    ensures
        r@ == sqrt_of(a@),
{
    from_big(&to_big(a).sqrt(PREC, RoundingMode::ToEven))
}

/// Relies on astro-float's `BigFloat::sin`.
#[verifier::external_body]
pub(crate) fn num_sin(a: &Number) -> (r: Number)
    ensures
        r@ == sin_of(a@),
{
    from_big(&to_big(a).sin(PREC, RoundingMode::ToEven, &mut Consts::new().expect("constants cache")))
}

/// Relies on astro-float's `BigFloat::cos`.
#[verifier::external_body]
pub(crate) fn num_cos(a: &Number) -> (r: Number)
    ensures
        r@ == cos_of(a@),
{
    from_big(&to_big(a).cos(PREC, RoundingMode::ToEven, &mut Consts::new().expect("constants cache")))
}

/// Relies on astro-float's `BigFloat::tan`.
#[verifier::external_body]
pub(crate) fn num_tan(a: &Number) -> (r: Number)
    ensures
        r@ == tan_of(a@),
{
    from_big(&to_big(a).tan(PREC, RoundingMode::ToEven, &mut Consts::new().expect("constants cache")))
}

/// Relies on astro-float's `BigFloat::parse` in base ten.
#[verifier::external_body]
pub(crate) fn parse_decimal(s: &str) -> (r: Number)
    ensures
        r@ == parsed_of(s@),
{
    from_big(&BigFloat::parse(s, Radix::Dec, PREC, RoundingMode::ToEven, &mut Consts::new().expect("constants cache")))
}

/// Relies on astro-float's `BigFloat::convert_to_radix` in base ten: its
/// digits are decimal digits, and it fails on infinities and NaN.
#[verifier::external_body]
pub(crate) fn to_decimal(a: &Number) -> (r: Option<(Sign, Vec<u8>, i32)>)
    ensures
        r matches Some((s, m, e)) ==> decimal_of(a@) == Some((s, m@, e as int)),
        r is None ==> decimal_of(a@) is None,
        r matches Some((s, m, e)) ==> is_digits(m@),
        !(a@ is Finite) ==> r is None,
{
    let r = to_big(a).convert_to_radix(Radix::Dec, RoundingMode::ToEven, &mut Consts::new().expect("constants cache"));
    r.ok().map(|(s, m, e)| match s {
        BigSign::Neg => (Sign::Neg, m, e),
        BigSign::Pos => (Sign::Pos, m, e),
    })
}

/// Text shown for a number: its decimal digits rounded and rendered, `Inf`
/// or `-Inf` for the infinities, and `NaN` otherwise.
pub open spec fn number_text(n: NumberView) -> Seq<char> {
    match decimal_of(n) {
        Some((s, m, e)) => display_text(s, m, e),
        None => match n {
            NumberView::Infinite(Sign::Pos) => seq!['I', 'n', 'f'],
            NumberView::Infinite(Sign::Neg) => seq!['-', 'I', 'n', 'f'],
            _ => seq!['N', 'a', 'N'],
        },
    }
}

/// Renders a number as text with `DISPLAY_DIGITS` significant digits.
pub fn float_to_string(num: &Number) -> (r: String)
    ensures
        r@ == number_text(num@),
{
    match to_decimal(num) {
        Some((s, m, e)) => display_decimal(s, m, e),
        None => {
            let t = match num {
                Number::Infinite(Sign::Pos) => "Inf",
                Number::Infinite(Sign::Neg) => "-Inf",
                _ => "NaN",
            };
            proof {
                reveal_strlit("Inf");
                reveal_strlit("-Inf");
                reveal_strlit("NaN");
            }
            t.to_owned()
        },
    }
}

} // verus!
