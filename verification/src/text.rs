//! Building the scrape text.
//!
//! The exposition text is assembled character by character into a `String`.
//! The only operations taken on trust are the two standard-library append
//! calls; everything that decides which characters appear is verified
//! against the decimal model in `decimal`.

use vstd::prelude::*;
use crate::decimal::{Dec, dec_wf, dec_chars, dec_body, spec_udigits, digit_char, zeros};

verus! {

/// Relies on String::push: appends exactly the one character.
#[verifier::external_body]
pub(crate) fn push_char(s: &mut String, c: char)
    ensures
        final(s)@ == old(s)@.push(c),
{
    s.push(c)
}

/// Relies on String::push_str: appends exactly the given characters.
#[verifier::external_body]
pub(crate) fn push_str(s: &mut String, t: &str)
    ensures
        final(s)@ == old(s)@ + t@,
{
    s.push_str(t)
}

/// The character for one decimal digit.
fn digit_ascii(n: u64) -> (c: char)
    requires
        n < 10,
    ensures
        c == digit_char(n as int),
{
    match n {
        0 => '0',
        1 => '1',
        2 => '2',
        3 => '3',
        4 => '4',
        5 => '5',
        6 => '6',
        7 => '7',
        8 => '8',
        _ => '9',
    }
}

/// The decimal digits of `n`, most significant first.
fn digits_vec(n: u64) -> (v: Vec<char>)
    ensures
        v@ == spec_udigits(n as nat),
        v@.len() >= 1,
    decreases n,
{
    if n < 10 {
        let mut v: Vec<char> = Vec::new();
        v.push(digit_ascii(n));
        proof {
            assert(v@ =~= spec_udigits(n as nat));
        }
        v
    } else {
        let mut v = digits_vec(n / 10);
        v.push(digit_ascii(n % 10));
        proof {
            assert(v@ =~= spec_udigits(n as nat));
        }
        v
    }
}

/// Appends `v[lo..hi]`.
fn push_chars(out: &mut String, v: &Vec<char>, lo: usize, hi: usize)
    requires
        lo <= hi <= v@.len(),
    ensures
        final(out)@ == old(out)@ + v@.subrange(lo as int, hi as int),
    decreases hi - lo,
{
    if lo < hi {
        push_char(out, v[lo]);
        push_chars(out, v, lo + 1, hi);
        proof {
            assert(old(out)@ + v@.subrange(lo as int, hi as int) =~= old(out)@.push(v@[lo as int])
                + v@.subrange(lo as int + 1, hi as int));
        }
    } else {
        proof {
            assert(old(out)@ + v@.subrange(lo as int, hi as int) =~= old(out)@);
        }
    }
}

/// Appends `n` zero digits.
fn push_zeros(out: &mut String, n: u64)
    ensures
        final(out)@ == old(out)@ + zeros(n as int),
    decreases n,
{
    if n > 0 {
        push_char(out, '0');
        push_zeros(out, n - 1);
        proof {
            assert(old(out)@ + zeros(n as int) =~= old(out)@.push('0') + zeros(n as int - 1));
        }
    } else {
        proof {
            assert(old(out)@ + zeros(0) =~= old(out)@);
        }
    }
}

/// Appends the decimal numeral of `d`.
pub fn push_dec(out: &mut String, d: &Dec)
    requires
        dec_wf(*d),
    ensures
        final(out)@ == old(out)@ + dec_chars(*d),
{
    if d.neg {
        push_char(out, '-');
    }
    let ghost mid = out@;
    let ds = digits_vec(d.mant);
    if d.exp >= 0 {
        push_chars(out, &ds, 0, ds.len());
        push_zeros(out, d.exp as u64);
        proof {
            assert(ds@.subrange(0, ds@.len() as int) =~= ds@);
            assert(out@ =~= mid + dec_body(*d));
        }
    } else {
        let k: usize = (-d.exp) as usize;
        if k < ds.len() {
            push_chars(out, &ds, 0, ds.len() - k);
            push_char(out, '.');
            push_chars(out, &ds, ds.len() - k, ds.len());
            proof {
                assert(out@ =~= mid + dec_body(*d));
            }
        } else {
            push_char(out, '0');
            push_char(out, '.');
            push_zeros(out, (k - ds.len()) as u64);
            push_chars(out, &ds, 0, ds.len());
            proof {
                assert(ds@.subrange(0, ds@.len() as int) =~= ds@);
                assert(out@ =~= mid + dec_body(*d));
            }
        }
    }
    proof {
        assert(out@ =~= old(out)@ + dec_chars(*d));
    }
}

} // verus!
