//! Exact decimal numbers.
//!
//! Every value that the device reports is a decimal numeral in its JSON
//! payload.  The exporter keeps each one exactly as a sign, an integer
//! mantissa and a power-of-ten exponent: the value of a `Dec` is
//! `(-1)^neg * mant * 10^exp`.  Keeping the numeral exact makes the
//! deci-volt correction (a division by ten) a pure exponent shift, and it
//! lets the scrape text reproduce the device's digits verbatim.

use vstd::prelude::*;

verus! {

/// Exponents this far from zero are always representable; parsing rejects
/// numerals outside a tighter range, so a shift by one stays inside it.
pub const DEC_EXP_LIMIT: i64 = 500;

/// One decimal number: `(-1)^neg * mant * 10^exp`.
#[derive(Clone, Copy, Debug, PartialEq, Eq, Structural)]
pub struct Dec {
    pub neg: bool,
    pub mant: u64,
    pub exp: i64,
}

/// Well-formed decimals keep their exponent strictly inside the limit, so
/// one division by ten can never underflow the exponent.
pub open spec fn dec_wf(d: Dec) -> bool {
    -DEC_EXP_LIMIT < d.exp && d.exp < DEC_EXP_LIMIT
}

/// `10^n`.
pub open spec fn pow10(n: nat) -> int
    decreases n,
{
    if n == 0 {
        1
    } else {
        10 * pow10((n - 1) as nat)
    }
}

/// The value of a well-formed decimal, scaled by the fixed factor
/// `10^DEC_EXP_LIMIT` so that it is an integer.
pub open spec fn dec_scaled(d: Dec) -> int
    recommends
        dec_wf(d),
{
    let m = if d.neg {
        -(d.mant as int)
    } else {
        d.mant as int
    };
    m * pow10((d.exp + DEC_EXP_LIMIT) as nat)
}

pub proof fn lemma_pow10_step(n: nat)
    ensures
        pow10(n + 1) == 10 * pow10(n),
{
}

/// Dividing by ten is exact on this representation: only the exponent moves.
pub fn dec_div10(d: Dec) -> (r: Dec)
    requires
        dec_wf(d),
    ensures
        r.neg == d.neg,
        r.mant == d.mant,
        r.exp == d.exp - 1,
        dec_wf(r) || r.exp == -DEC_EXP_LIMIT,
{
    Dec { neg: d.neg, mant: d.mant, exp: d.exp - 1 }
}

/// The character for one decimal digit.
pub open spec fn digit_char(n: int) -> char {
    if n == 0 {
        '0'
    } else if n == 1 {
        '1'
    } else if n == 2 {
        '2'
    } else if n == 3 {
        '3'
    } else if n == 4 {
        '4'
    } else if n == 5 {
        '5'
    } else if n == 6 {
        '6'
    } else if n == 7 {
        '7'
    } else if n == 8 {
        '8'
    } else {
        '9'
    }
}

/// The decimal digits of `n`, most significant first.
pub open spec fn spec_udigits(n: nat) -> Seq<char>
    decreases n,
{
    if n < 10 {
        seq![digit_char(n as int)]
    } else {
        spec_udigits(n / 10) + seq![digit_char((n % 10) as int)]
    }
}

/// `n` zero digits.
pub open spec fn zeros(n: int) -> Seq<char> {
    Seq::new(if n <= 0 { 0 } else { n as nat }, |i: int| '0')
}

/// The numeral of an unsigned decimal `mant * 10^exp`: the mantissa's
/// digits with the decimal point placed by the exponent.
pub open spec fn dec_body(d: Dec) -> Seq<char> {
    let ds = spec_udigits(d.mant as nat);
    if d.exp >= 0 {
        ds + zeros(d.exp as int)
    } else if -(d.exp as int) < ds.len() {
        ds.subrange(0, ds.len() + d.exp) + seq!['.'] + ds.subrange(ds.len() + d.exp, ds.len() as int)
    } else {
        seq!['0', '.'] + zeros(-(d.exp as int) - ds.len()) + ds
    }
}

/// The numeral of `d`, exactly as the scrape text shows it.
pub open spec fn dec_chars(d: Dec) -> Seq<char> {
    if d.neg {
        seq!['-'] + dec_body(d)
    } else {
        dec_body(d)
    }
}

/// Division by ten is exact: ten times the scaled value of the quotient is
/// the scaled value of the dividend.
pub proof fn lemma_div10_exact(d: Dec)
    requires
        dec_wf(d),
    ensures
        10 * dec_scaled(Dec { neg: d.neg, mant: d.mant, exp: (d.exp - 1) as i64 }) == dec_scaled(d),
{
    let q = Dec { neg: d.neg, mant: d.mant, exp: (d.exp - 1) as i64 };
    let n = (q.exp + DEC_EXP_LIMIT) as nat;
    lemma_pow10_step(n);
    assert((d.exp + DEC_EXP_LIMIT) as nat == n + 1);
    let m = if d.neg {
        -(d.mant as int)
    } else {
        d.mant as int
    };
    assert(10 * (m * pow10(n)) == m * (10 * pow10(n))) by (nonlinear_arith);
}

} // verus!
