//! Rounding a decimal digit string to a number of significant digits, and
//! rendering it in plain or scientific notation.

use std::collections::VecDeque;
use vstd::prelude::*;

verus! {

/// Sign of a number.
#[derive(Debug, Clone, Copy, PartialEq, Eq, Structural)]
pub enum Sign {
    Pos,
    Neg,
}

/// Every element is a decimal digit.
pub open spec fn is_digits(m: Seq<u8>) -> bool {
    forall|k: int| 0 <= k < m.len() ==> m[k] <= 9
}

/// Some digit is not zero.
pub open spec fn has_nonzero(m: Seq<u8>) -> bool {
    exists|k: int| 0 <= k < m.len() && m[k] != 0
}

/// Index of the first nonzero digit, or the length when every digit is zero.
pub open spec fn first_nonzero(m: Seq<u8>) -> nat
    decreases m.len(),
{
    if m.len() == 0 {
        0
    } else if m[0] != 0 {
        0
    } else {
        1 + first_nonzero(m.drop_first())
    }
}

/// The digits after adding one at the last position, carrying leftwards;
/// a carry off the front becomes a new leading `1`.
pub open spec fn incremented(m: Seq<u8>) -> Seq<u8>
    decreases m.len(),
{
    if m.len() == 0 {
        seq![1u8]
    } else if m.last() < 9 {
        m.drop_last().push((m.last() + 1) as u8)
    } else {
        incremented(m.drop_last()).push(0u8)
    }
}

/// Rounding of `m` (value `0.m * 10^exponent`) to `precision` significant digits:
/// `None` where there is no nonzero digit, or nothing is kept to round up.
pub open spec fn rounded(exponent: int, m: Seq<u8>, precision: nat) -> Option<(int, Seq<u8>)> {
    let i = first_nonzero(m) as int;
    if i >= m.len() {
        None
    } else if i + precision >= m.len() {
        Some((exponent, m))
    } else {
        let kept = m.subrange(0, i + precision);
        if m[i + precision] >= 5 {
            if kept.len() == 0 {
                None
            } else {
                let up = incremented(kept);
                Some((exponent + (up.len() - kept.len()), up))
            }
        } else {
            Some((exponent, kept))
        }
    }
}

/// The ASCII character of a decimal digit.
pub open spec fn digit_char(d: u8) -> char {
    ((d + 48) as u8) as char
}

pub open spec fn digit_chars(m: Seq<u8>) -> Seq<char> {
    m.map_values(|d: u8| digit_char(d))
}

pub open spec fn zero_chars(n: nat) -> Seq<char> {
    Seq::new(n, |k: int| '0')
}

/// `m` without its trailing zero digits.
pub open spec fn trim_zeros(m: Seq<u8>) -> Seq<u8>
    decreases m.len(),
{
    if m.len() > 0 && m.last() == 0 {
        trim_zeros(m.drop_last())
    } else {
        m
    }
}

/// Decimal digits of `n`, without leading zeros.
pub open spec fn nat_chars(n: nat) -> Seq<char>
    decreases n,
{
    if n < 10 {
        seq![digit_char(n as u8)]
    } else {
        nat_chars(n / 10).push(digit_char((n % 10) as u8))
    }
}

pub open spec fn sign_chars(s: Sign) -> Seq<char> {
    if s == Sign::Neg {
        seq!['-']
    } else {
        Seq::empty()
    }
}

/// Largest absolute exponent rendered in plain notation.
pub const PLAIN_LIMIT: i32 = 3;

/// Text of the number `sign 0.mantissa * 10^e`.
pub open spec fn formatted(s: Sign, mantissa: Seq<u8>, e: int) -> Seq<char> {
    let m = trim_zeros(mantissa);
    if e > PLAIN_LIMIT || e < -PLAIN_LIMIT {
        let x = e - 1;
        sign_chars(s) + seq![digit_char(m[0]), '.'] + (if m.len() > 1 {
            digit_chars(m.drop_first())
        } else {
            seq!['0']
        }) + seq!['e'] + (if x < 0 {
            seq!['-']
        } else {
            Seq::empty()
        }) + nat_chars(if x < 0 {
            (-x) as nat
        } else {
            x as nat
        })
    } else if e >= m.len() {
        sign_chars(s) + digit_chars(m) + zero_chars((e - m.len()) as nat)
    } else if e <= 0 {
        sign_chars(s) + seq!['0', '.'] + zero_chars((-e) as nat) + digit_chars(m)
    } else {
        sign_chars(s) + digit_chars(m.subrange(0, e)) + seq!['.'] + digit_chars(
            m.subrange(e, m.len() as int),
        )
    }
}

/// Value of a big-endian string of decimal digits.
pub open spec fn digits_value(m: Seq<u8>) -> nat
    decreases m.len(),
{
    if m.len() == 0 {
        0
    } else {
        digits_value(m.drop_last()) * 10 + m.last() as nat
    }
}

/// Adding one with carry raises the value of a digit string by exactly one,
/// and leaves only digits.
pub proof fn lemma_incremented_value(m: Seq<u8>)
    requires
        is_digits(m),
    ensures
        digits_value(incremented(m)) == digits_value(m) + 1,
        is_digits(incremented(m)),
    decreases m.len(),
{
    if m.len() == 0 {
        assert(seq![1u8].drop_last() =~= Seq::<u8>::empty());
        assert(digits_value(Seq::<u8>::empty()) == 0);
        assert(digits_value(seq![1u8]) == 1);
    } else if m.last() < 9 {
        let r = m.drop_last().push((m.last() + 1) as u8);
        assert(r.drop_last() =~= m.drop_last());
        assert(digits_value(r) == digits_value(m.drop_last()) * 10 + m.last() as nat + 1);
    } else {
        lemma_incremented_value(m.drop_last());
        let r = incremented(m.drop_last()).push(0u8);
        assert(r.drop_last() =~= incremented(m.drop_last()));
        assert(digits_value(r) == digits_value(incremented(m.drop_last())) * 10);
        assert forall|k: int| 0 <= k < r.len() implies r[k] <= 9 by {
            if k < r.len() - 1 {
                assert(r[k] == incremented(m.drop_last())[k]);
            }
        }
    }
}

proof fn lemma_incremented_len(m: Seq<u8>)
    ensures
        incremented(m).len() == m.len() || incremented(m).len() == m.len() + 1,
        m.len() > 0 ==> incremented(m).len() >= m.len(),
    decreases m.len(),
{
    if m.len() > 0 && m.last() >= 9 {
        lemma_incremented_len(m.drop_last());
    }
}

proof fn lemma_first_nonzero(m: Seq<u8>, i: int)
    requires
        0 <= i <= m.len(),
        forall|k: int| 0 <= k < i ==> m[k] == 0,
        i < m.len() ==> m[i] != 0,
    ensures
        first_nonzero(m) == i,
    decreases i,
{
    if i > 0 {
        lemma_first_nonzero(m.drop_first(), i - 1);
    }
}

proof fn lemma_trim_prefix(m: Seq<u8>, len: int)
    requires
        0 < len <= m.len(),
        m[len - 1] != 0,
        forall|k: int| len <= k < m.len() ==> m[k] == 0,
    ensures
        trim_zeros(m) == m.subrange(0, len),
    decreases m.len(),
{
    if m.len() > len {
        assert(m.drop_last().subrange(0, len) =~= m.subrange(0, len));
        lemma_trim_prefix(m.drop_last(), len);
    } else {
        assert(m.subrange(0, len) =~= m);
    }
}

/// Adds one to the digit string at its last position, with carry.
/// Returns `None` for an empty string.
pub fn add1_to_vec(digits: VecDeque<u8>) -> (r: Option<VecDeque<u8>>)
    requires
        is_digits(digits@),
    ensures
        r is None <==> digits@.len() == 0,
        r matches Some(d) ==> d@ == incremented(digits@),
{
    let mut digits = digits;
    let n = digits.len();
    if n == 0 {
        return None;
    }
    let ghost orig = digits@;
    let mut nines: usize = 0;
    loop
        invariant_except_break
            incremented(digits@) + Seq::new(nines as nat, |k: int| 0u8) == incremented(orig),
            digits@.len() + nines == orig.len(),
        invariant
            nines <= orig.len(),
            orig.len() == n,
            is_digits(digits@),
        ensures
            digits@ + Seq::new(nines as nat, |k: int| 0u8) == incremented(orig),
        decreases digits@.len(),
    {
        let ghost before = digits@;
        match digits.pop_back() {
            None => {
                digits.push_front(1);
                assert(digits@ =~= incremented(before));
                break ;
            },
            Some(d) => {
                assert(before.drop_last() =~= digits@);
                if d < 9 {
                    digits.push_back(d + 1);
                    assert(digits@ =~= incremented(before));
                    break ;
                } else {
                    assert(incremented(before) == incremented(digits@).push(0u8));
                    assert(incremented(digits@) + Seq::new((nines + 1) as nat, |k: int| 0u8)
                        =~= incremented(before) + Seq::new(nines as nat, |k: int| 0u8));
                    nines = nines + 1;
                }
            },
        }
    }
    let ghost base = digits@;
    let mut z: usize = 0;
    while z < nines
        invariant
            z <= nines,
            digits@ == base + Seq::new(z as nat, |k: int| 0u8),
        decreases nines - z,
    {
        digits.push_back(0);
        z = z + 1;
        assert(digits@ =~= base + Seq::new(z as nat, |k: int| 0u8));
    }
    Some(digits)
}

/// Rounds the mantissa `0.d1d2... * 10^exponent` to `precision` significant
/// decimal digits. Returns `None` when no digit is nonzero.
pub fn round_to_digit(exponent: i32, mantissa: Vec<u8>, precision: usize) -> (r: Option<
    (i32, Vec<u8>),
>)
    requires
        is_digits(mantissa@),
        exponent < i32::MAX,
    ensures
        r is None <==> rounded(exponent as int, mantissa@, precision as nat) is None,
        r matches Some((e, m)) ==> rounded(exponent as int, mantissa@, precision as nat) == Some(
            (e as int, m@),
        ),
{
    let len = mantissa.len();
    let mut i: usize = 0;
    while i < len && mantissa[i] == 0
        invariant
            i <= len,
            len == mantissa@.len(),
            forall|k: int| 0 <= k < i ==> mantissa@[k] == 0,
        decreases len - i,
    {
        i = i + 1;
    }
    proof {
        lemma_first_nonzero(mantissa@, i as int);
    }
    if i == len {
        return None;
    }
    if precision >= len - i {
        return Some((exponent, mantissa));
    }
    let cut = i + precision;
    if mantissa[cut] >= 5 {
        let mut kept: VecDeque<u8> = VecDeque::new();
        let mut k: usize = 0;
        while k < cut
            invariant
                k <= cut,
                cut < len,
                len == mantissa@.len(),
                kept@ == mantissa@.subrange(0, k as int),
            decreases cut - k,
        {
            kept.push_back(mantissa[k]);
            k = k + 1;
            assert(kept@ =~= mantissa@.subrange(0, k as int));
        }
        proof {
            lemma_incremented_len(kept@);
        }
        match add1_to_vec(kept) {
            None => None,
            Some(d) => {
                let grew = d.len() > cut;
                let mut d = d;
                let mut out: Vec<u8> = Vec::new();
                let ghost all = d@;
                while d.len() > 0
                    invariant
                        out@ + d@ == all,
                    decreases d@.len(),
                {
                    let ghost before = d@;
                    match d.pop_front() {
                        Some(x) => {
                            out.push(x);
                            assert(out@ + d@ =~= all);
                        },
                        None => {},
                    }
                }
                assert(out@ =~= all);
                let e = if grew {
                    exponent + 1
                } else {
                    exponent
                };
                Some((e, out))
            },
        }
    } else {
        let mut out = mantissa;
        out.truncate(cut);
        Some((exponent, out))
    }
}

fn to_digit_char(d: u8) -> (c: char)
    requires
        d <= 9,
    ensures
        c == digit_char(d),
{
    (d + 48) as char
}

/// Appends the characters of the digits `m[from..to]`.
fn push_digits(out: &mut Vec<char>, m: &[u8], from: usize, to: usize)
    requires
        from <= to <= m@.len(),
        is_digits(m@),
    ensures
        final(out)@ == old(out)@ + digit_chars(m@.subrange(from as int, to as int)),
{
    let ghost start = out@;
    let mut k = from;
    while k < to
        invariant
            from <= k <= to,
            to <= m@.len(),
            is_digits(m@),
            out@ == start + digit_chars(m@.subrange(from as int, k as int)),
        decreases to - k,
    {
        out.push(to_digit_char(m[k]));
        k = k + 1;
        assert(out@ =~= start + digit_chars(m@.subrange(from as int, k as int)));
    }
}

/// Appends the decimal digits of `n`.
pub(crate) fn push_count(out: &mut Vec<char>, n: usize)
    ensures
        final(out)@ == old(out)@ + nat_chars(n as nat),
    decreases n,
{
    if n >= 10 {
        push_count(out, n / 10);
    }
    out.push(to_digit_char((n % 10) as u8));
    proof {
        if n >= 10 {
            assert(old(out)@ + nat_chars(n as nat) =~= old(out)@ + nat_chars((n / 10) as nat).push(
                digit_char((n % 10) as u8),
            ));
        }
    }
}

/// Appends the characters of `s`.
pub(crate) fn push_str(out: &mut Vec<char>, s: &str)
    ensures
        final(out)@ == old(out)@ + s@,
{
    let ghost start = out@;
    let n = s.unicode_len();
    let mut i: usize = 0;
    while i < n
        invariant
            i <= n,
            n == s@.len(),
            out@ == start + s@.subrange(0, i as int),
        decreases n - i,
    {
        out.push(s.get_char(i));
        i = i + 1;
        assert(out@ =~= start + s@.subrange(0, i as int));
    }
    assert(s@.subrange(0, n as int) =~= s@);
}

/// Appends `n` zero characters.
fn push_zeros(out: &mut Vec<char>, n: usize)
    ensures
        final(out)@ == old(out)@ + zero_chars(n as nat),
{
    let ghost start = out@;
    let mut k: usize = 0;
    while k < n
        invariant
            k <= n,
            out@ == start + zero_chars(k as nat),
        decreases n - k,
    {
        out.push('0');
        k = k + 1;
        assert(out@ =~= start + zero_chars(k as nat));
    }
}

/// Appends the decimal digits of `n`.
pub(crate) fn push_nat(out: &mut Vec<char>, n: u64)
    ensures
        final(out)@ == old(out)@ + nat_chars(n as nat),
    decreases n,
{
    if n >= 10 {
        push_nat(out, n / 10);
    }
    out.push(to_digit_char((n % 10) as u8));
    proof {
        if n >= 10 {
            assert(old(out)@ + nat_chars(n as nat) =~= old(out)@ + nat_chars((n / 10) as nat).push(
                digit_char((n % 10) as u8),
            ));
        }
    }
}

/// Relies on `String`'s `FromIterator<&char>`: the characters, in order.
#[verifier::external_body]
pub(crate) fn string_from_chars(v: &Vec<char>) -> (r: String)
    ensures
        r@ == v@,
{
    v.iter().collect()
}

/// Renders `sign 0.mantissa * 10^expt` as text: trailing zero digits are
/// dropped, and scientific notation is used when `|expt| > 3`.
pub fn format_num(sign: Sign, mantissa: &[u8], expt: i32) -> (r: String)
    requires
        is_digits(mantissa@),
        has_nonzero(mantissa@),
    ensures
        r@ == formatted(sign, mantissa@, expt as int),
{
    let mut len: usize = mantissa.len();
    while len > 0 && mantissa[len - 1] == 0
        invariant
            len <= mantissa@.len(),
            forall|k: int| len <= k < mantissa@.len() ==> mantissa@[k] == 0,
        decreases len,
    {
        len = len - 1;
    }
    proof {
        let w = choose|w: int| 0 <= w < mantissa@.len() && mantissa@[w] != 0;
        assert(w < len);
        lemma_trim_prefix(mantissa@, len as int);
    }
    let ghost m = mantissa@.subrange(0, len as int);
    let mut out: Vec<char> = Vec::new();
    if sign == Sign::Neg {
        out.push('-');
    }
    assert(out@ == sign_chars(sign));
    let e: i64 = expt as i64;
    if e > PLAIN_LIMIT as i64 || e < -(PLAIN_LIMIT as i64) {
        let x: i64 = e - 1;
        out.push(to_digit_char(mantissa[0]));
        out.push('.');
        if len > 1 {
            push_digits(&mut out, mantissa, 1, len);
            assert(mantissa@.subrange(1, len as int) =~= m.drop_first());
        } else {
            out.push('0');
        }
        out.push('e');
        if x < 0 {
            out.push('-');
        }
        let ax: u64 = if x < 0 {
            (-x) as u64
        } else {
            x as u64
        };
        push_nat(&mut out, ax);
        let ghost tail: Seq<char> = if len > 1 {
            digit_chars(m.drop_first())
        } else {
            seq!['0']
        };
        let ghost xs: Seq<char> = if x < 0 {
            seq!['-']
        } else {
            Seq::empty()
        };
        assert(out@ =~= sign_chars(sign) + seq![digit_char(m[0]), '.'] + tail + seq!['e'] + xs
            + nat_chars(ax as nat));
    } else if e >= 0 && len <= e as usize {
        push_digits(&mut out, mantissa, 0, len);
        push_zeros(&mut out, e as usize - len);
    } else if e <= 0 {
        out.push('0');
        out.push('.');
        push_zeros(&mut out, (-e) as usize);
        push_digits(&mut out, mantissa, 0, len);
        assert(out@ =~= sign_chars(sign) + seq!['0', '.'] + zero_chars((-e) as nat) + digit_chars(
            m,
        ));
    } else {
        push_digits(&mut out, mantissa, 0, e as usize);
        out.push('.');
        push_digits(&mut out, mantissa, e as usize, len);
        assert(mantissa@.subrange(0, e as int) =~= m.subrange(0, e as int));
        assert(mantissa@.subrange(e as int, len as int) =~= m.subrange(e as int, m.len() as int));
        assert(out@ =~= sign_chars(sign) + digit_chars(m.subrange(0, e as int)) + seq!['.']
            + digit_chars(m.subrange(e as int, m.len() as int)));
    }
    string_from_chars(&out)
}

/// Significant decimal digits shown for a number.
pub const DISPLAY_DIGITS: usize = 15;

/// Text shown for `sign 0.mantissa * 10^e`: `0` when no digit is nonzero,
/// otherwise the mantissa rounded to `DISPLAY_DIGITS` significant digits and
/// rendered (unrounded only where the exponent has no room for a carry).
pub open spec fn display_text(s: Sign, m: Seq<u8>, e: int) -> Seq<char> {
    if !has_nonzero(m) {
        seq!['0']
    } else if e >= i32::MAX {
        formatted(s, m, e)
    } else {
        let (e2, m2) = rounded(e, m, DISPLAY_DIGITS as nat)->0;
        formatted(s, m2, e2)
    }
}

proof fn lemma_incremented_digits(m: Seq<u8>)
    requires
        is_digits(m),
    ensures
        is_digits(incremented(m)),
        has_nonzero(incremented(m)),
    decreases m.len(),
{
    if m.len() == 0 {
        assert(incremented(m)[0] != 0);
    } else if m.last() < 9 {
        assert(incremented(m)[m.len() - 1] != 0);
    } else {
        lemma_incremented_digits(m.drop_last());
        let w = choose|w: int|
            0 <= w < incremented(m.drop_last()).len() && incremented(m.drop_last())[w] != 0;
        assert(incremented(m)[w] != 0);
    }
}

proof fn lemma_first_nonzero_found(m: Seq<u8>)
    requires
        has_nonzero(m),
    ensures
        first_nonzero(m) < m.len(),
        m[first_nonzero(m) as int] != 0,
    decreases m.len(),
{
    if m[0] == 0 {
        let w = choose|w: int| 0 <= w < m.len() && m[w] != 0;
        assert(m.drop_first()[w - 1] != 0);
        lemma_first_nonzero_found(m.drop_first());
    }
}

/// A rounded mantissa still has digits only, and a nonzero one.
proof fn lemma_rounded_digits(e: int, m: Seq<u8>, p: nat)
    requires
        is_digits(m),
        has_nonzero(m),
        p > 0,
    ensures
        rounded(e, m, p) matches Some((e2, m2)) && is_digits(m2) && has_nonzero(m2) && e <= e2
            <= e + 1,
{
    lemma_first_nonzero_found(m);
    let i = first_nonzero(m) as int;
    if i + p < m.len() {
        let kept = m.subrange(0, i + p);
        assert(kept[i] != 0);
        if m[i + p] >= 5 {
            lemma_incremented_digits(kept);
            lemma_incremented_len(kept);
        }
    }
}

/// Whether some digit is nonzero.
fn any_nonzero(m: &Vec<u8>) -> (r: bool)
    ensures
        r == has_nonzero(m@),
{
    let mut k: usize = 0;
    while k < m.len()
        invariant
            k <= m@.len(),
            forall|j: int| 0 <= j < k ==> m@[j] == 0,
        decreases m@.len() - k,
    {
        if m[k] != 0 {
            return true;
        }
        k = k + 1;
    }
    false
}

/// The text shown for `sign 0.mantissa * 10^exponent`.
pub fn display_decimal(sign: Sign, mantissa: Vec<u8>, exponent: i32) -> (r: String)
    requires
        is_digits(mantissa@),
    ensures
        r@ == display_text(sign, mantissa@, exponent as int),
{
    if !any_nonzero(&mantissa) {
        let mut out: Vec<char> = Vec::new();
        out.push('0');
        assert(out@ =~= seq!['0']);
        return string_from_chars(&out);
    }
    if exponent == i32::MAX {
        return format_num(sign, mantissa.as_slice(), exponent);
    }
    proof {
        lemma_rounded_digits(exponent as int, mantissa@, DISPLAY_DIGITS as nat);
    }
    match round_to_digit(exponent, mantissa, DISPLAY_DIGITS) {
        Some((e, m)) => format_num(sign, m.as_slice(), e),
        None => {
            assert(false);
            String::new()
        },
    }
}

} // verus!
