//! The device client's parsing logic.
//!
//! One poll returns a JSON body shaped
//! `{ "zappi": [ { "frq": number, "vol": number, "grd": number, ... } ] }`.
//! `retrieve_stats` takes that body as bytes and extracts the three numeric
//! fields of the first `zappi` element, applying the deci-volt correction
//! to `vol`.  The grammar below is the JSON subset the device speaks: the
//! whole document must be well-formed, members that the exporter does not
//! read are skipped, and for a key that occurs twice the later member wins.
//!
//! The accepted numerals are JSON numbers whose significant digits fit an
//! unsigned 64-bit mantissa and whose decimal exponent stays within
//! `NUM_EXP_BOUND`; anything larger is reported as a bad field, never
//! truncated.

use vstd::prelude::*;
use crate::decimal::{Dec, dec_wf, dec_scaled, dec_div10, lemma_div10_exact};
use crate::reading::{Reading, reading_wf};

verus! {

pub const NUM_EXP_BOUND: i64 = 400;

pub const QUOTE: u8 = 34;
pub const BSLASH: u8 = 92;
pub const LBRACE: u8 = 123;
pub const RBRACE: u8 = 125;
pub const LBRACK: u8 = 91;
pub const RBRACK: u8 = 93;
pub const COMMA: u8 = 44;
pub const COLON: u8 = 58;
pub const MINUS: u8 = 45;
pub const PLUS: u8 = 43;
pub const DOT: u8 = 46;
pub const DIGIT0: u8 = 48;
pub const DIGIT9: u8 = 57;
pub const LOW_E: u8 = 101;
pub const UP_E: u8 = 69;

/// Why a poll's body produced no reading.
#[derive(Clone, Copy, Debug, PartialEq, Eq, Structural)]
pub enum ParseError {
    /// The body is not a well-formed JSON document.
    BadJson,
    /// The document has no `zappi` member, or its value is not an array.
    NoZappi,
    /// The `zappi` array is empty.
    EmptyZappi,
    /// The first element lacks `frq`, `vol` or `grd`, or one of them is not
    /// a representable number.
    BadField,
}

/// The three fields exactly as the device reported them.
#[derive(Clone, Copy, Debug, PartialEq, Eq, Structural)]
pub struct RawStats {
    pub frq: Dec,
    pub vol: Dec,
    pub grd: Dec,
}

/// What a walk over the document has seen of the `zappi` member so far.
#[derive(Clone, Copy, Debug)]
pub enum ZappiSeen {
    Good(RawStats),
    NotArray,
    Empty,
    Bad,
}

/// What a walk over the first element has seen of one field so far:
/// not yet present, present but unusable, or a parsed number.
#[derive(Clone, Copy, Debug)]
pub struct FieldsAcc {
    pub frq: Option<Option<Dec>>,
    pub vol: Option<Option<Dec>>,
    pub grd: Option<Option<Dec>>,
}

/// A parsed number's exponent is bounded, so every parsed decimal is
/// comfortably well-formed.
pub open spec fn dec_parsed(d: Dec) -> bool {
    -NUM_EXP_BOUND <= d.exp <= NUM_EXP_BOUND
}

pub open spec fn field_ok(x: Option<Option<Dec>>) -> bool {
    match x {
        Some(Some(d)) => dec_parsed(d),
        _ => true,
    }
}

pub open spec fn fields_ok(acc: FieldsAcc) -> bool {
    field_ok(acc.frq) && field_ok(acc.vol) && field_ok(acc.grd)
}

pub open spec fn seen_ok(o: Option<ZappiSeen>) -> bool {
    match o {
        Some(ZappiSeen::Good(raw)) => dec_parsed(raw.frq) && dec_parsed(raw.vol) && dec_parsed(
            raw.grd,
        ),
        _ => true,
    }
}

pub open spec fn is_ws(c: u8) -> bool {
    c == 32 || c == 9 || c == 10 || c == 13
}

pub open spec fn is_digit(c: u8) -> bool {
    DIGIT0 <= c <= DIGIT9
}

/// The first position at or after `i` holding no whitespace.
pub open spec fn spec_ws(s: Seq<u8>, i: int) -> int
    decreases s.len() - i,
{
    if 0 <= i < s.len() && is_ws(s[i]) {
        spec_ws(s, i + 1)
    } else {
        i
    }
}

/// The first position at or after `i` holding no digit.
pub open spec fn spec_digits_end(s: Seq<u8>, i: int) -> int
    decreases s.len() - i,
{
    if 0 <= i < s.len() && is_digit(s[i]) {
        spec_digits_end(s, i + 1)
    } else {
        i
    }
}

/// The digits `s[lo..hi]` folded onto `acc` in base ten; `None` when a
/// character is no digit or the value outgrows sixty-four bits.
pub open spec fn spec_acc_digits(s: Seq<u8>, lo: int, hi: int, acc: u64) -> Option<u64>
    decreases hi - lo,
{
    if lo >= hi {
        Some(acc)
    } else if lo < 0 || hi > s.len() {
        None
    } else if !is_digit(s[lo]) {
        None
    } else {
        let d = (s[lo] - DIGIT0) as u64;
        if acc <= (u64::MAX - d) / 10 {
            spec_acc_digits(s, lo + 1, hi, (10 * acc + d) as u64)
        } else {
            None
        }
    }
}

/// The position after a string whose opening quote stood at `i - 1`:
/// characters until an unescaped closing quote, a backslash escaping the
/// character after it.
pub open spec fn spec_str_end(s: Seq<u8>, i: int) -> Option<int>
    decreases s.len() - i,
{
    if i < 0 || i >= s.len() {
        None
    } else if s[i] == QUOTE {
        Some(i + 1)
    } else if s[i] == BSLASH {
        if i + 2 <= s.len() {
            spec_str_end(s, i + 2)
        } else {
            None
        }
    } else {
        spec_str_end(s, i + 1)
    }
}

/// The fraction span of a number: after a point at `ihi` the digits
/// `flo..fhi`, at least one; without a point the empty span at `ihi`.
pub open spec fn spec_frac_part(s: Seq<u8>, ihi: int) -> Option<(int, int)> {
    if 0 <= ihi < s.len() && s[ihi] == DOT {
        let flo = ihi + 1;
        let fhi = spec_digits_end(s, flo);
        if fhi == flo {
            None
        } else {
            Some((flo, fhi))
        }
    } else {
        Some((ihi, ihi))
    }
}

/// The exponent part of a number at `p`: its sign, its digit span and the
/// position after it; without one, the empty span at `p`.
pub open spec fn spec_exp_part(s: Seq<u8>, p: int) -> Option<(bool, int, int)> {
    if 0 <= p < s.len() && (s[p] == LOW_E || s[p] == UP_E) {
        let eneg = p + 1 < s.len() && s[p + 1] == MINUS;
        let elo = if p + 1 < s.len() && (s[p + 1] == MINUS || s[p + 1] == PLUS) {
            p + 2
        } else {
            p + 1
        };
        let ehi = spec_digits_end(s, elo);
        if ehi == elo {
            None
        } else {
            Some((eneg, elo, ehi))
        }
    } else {
        Some((false, p, p))
    }
}

/// A JSON number at `i`: `None` on a syntax error, otherwise the position
/// after it together with its decimal value — or no value, when mantissa
/// or exponent are out of the representable range.
pub open spec fn spec_num(s: Seq<u8>, i: int) -> Option<(Option<Dec>, int)> {
    if i < 0 || i >= s.len() {
        None
    } else {
        let neg = s[i] == MINUS;
        let j = if neg {
            i + 1
        } else {
            i
        };
        if j >= s.len() || !is_digit(s[j]) {
            None
        } else {
            let ihi = if s[j] == DIGIT0 {
                j + 1
            } else {
                spec_digits_end(s, j)
            };
            match spec_frac_part(s, ihi) {
                None => None,
                Some((flo, fhi)) => match spec_exp_part(s, fhi) {
                    None => None,
                    Some((eneg, elo, ehi)) => {
                        let end = if ehi == fhi {
                            fhi
                        } else {
                            ehi
                        };
                        let dec = match spec_acc_digits(s, j, ihi, 0) {
                            None => None,
                            Some(m0) => match spec_acc_digits(s, flo, fhi, m0) {
                                None => None,
                                Some(m) => match spec_acc_digits(s, elo, ehi, 0) {
                                    None => None,
                                    Some(ev) => {
                                        let total = (if eneg {
                                            -(ev as int)
                                        } else {
                                            ev as int
                                        }) - (fhi - flo);
                                        if -NUM_EXP_BOUND <= total <= NUM_EXP_BOUND {
                                            Some(
                                                Dec { neg, mant: m, exp: total as i64 },
                                            )
                                        } else {
                                            None
                                        }
                                    },
                                },
                            },
                        };
                        Some((dec, end))
                    },
                },
            }
        }
    }
}

/// The position after one JSON value at `i` (no leading whitespace),
/// `None` on a syntax error.
pub open spec fn spec_skip_value(s: Seq<u8>, i: int) -> Option<int>
    decreases s.len() - i, 1int,
{
    if i < 0 || i >= s.len() {
        None
    } else if s[i] == LBRACE {
        let w = spec_ws(s, i + 1);
        if w < s.len() && s[w] == RBRACE {
            Some(w + 1)
        } else if w <= i || w > s.len() {
            None
        } else {
            spec_skip_members(s, w)
        }
    } else if s[i] == LBRACK {
        let w = spec_ws(s, i + 1);
        if w < s.len() && s[w] == RBRACK {
            Some(w + 1)
        } else if w <= i || w > s.len() {
            None
        } else {
            spec_skip_elems(s, w)
        }
    } else if s[i] == QUOTE {
        spec_str_end(s, i + 1)
    } else if s[i] == 116 {  // true
        if i + 4 <= s.len() && s[i + 1] == 114 && s[i + 2] == 117 && s[i + 3] == 101 {
            Some(i + 4)
        } else {
            None
        }
    } else if s[i] == 102 {  // false
        if i + 5 <= s.len() && s[i + 1] == 97 && s[i + 2] == 108 && s[i + 3] == 115 && s[i + 4]
            == 101 {
            Some(i + 5)
        } else {
            None
        }
    } else if s[i] == 110 {  // null
        if i + 4 <= s.len() && s[i + 1] == 117 && s[i + 2] == 108 && s[i + 3] == 108 {
            Some(i + 4)
        } else {
            None
        }
    } else if s[i] == MINUS || is_digit(s[i]) {
        match spec_num(s, i) {
            None => None,
            Some((_, end)) => Some(end),
        }
    } else {
        None
    }
}

/// The position after the members of an object, `i` at the opening quote
/// of a key, up to and including the closing brace.
pub open spec fn spec_skip_members(s: Seq<u8>, i: int) -> Option<int>
    decreases s.len() - i, 2int,
{
    if i < 0 || i >= s.len() || s[i] != QUOTE {
        None
    } else {
        match spec_str_end(s, i + 1) {
            None => None,
            Some(e1) => {
                let c = spec_ws(s, e1);
                if !(0 <= c < s.len() && s[c] == COLON) {
                    None
                } else {
                    let v = spec_ws(s, c + 1);
                    if v <= i || v > s.len() {
                        None
                    } else {
                        match spec_skip_value(s, v) {
                            None => None,
                            Some(ve) => {
                                let t = spec_ws(s, ve);
                                if 0 <= t < s.len() && s[t] == RBRACE {
                                    Some(t + 1)
                                } else if 0 <= t < s.len() && s[t] == COMMA {
                                    let k = spec_ws(s, t + 1);
                                    if k <= i || k > s.len() {
                                        None
                                    } else {
                                        spec_skip_members(s, k)
                                    }
                                } else {
                                    None
                                }
                            },
                        }
                    }
                }
            },
        }
    }
}

/// The position after the elements of an array, `i` at the first character
/// of an element, up to and including the closing bracket.
pub open spec fn spec_skip_elems(s: Seq<u8>, i: int) -> Option<int>
    decreases s.len() - i, 2int,
{
    if i < 0 || i >= s.len() {
        None
    } else {
        match spec_skip_value(s, i) {
            None => None,
            Some(ve) => {
                let t = spec_ws(s, ve);
                if 0 <= t < s.len() && s[t] == RBRACK {
                    Some(t + 1)
                } else if 0 <= t < s.len() && s[t] == COMMA {
                    let k = spec_ws(s, t + 1);
                    if k <= i || k > s.len() {
                        None
                    } else {
                        spec_skip_elems(s, k)
                    }
                } else {
                    None
                }
            },
        }
    }
}

/// Walks the members of the first `zappi` element, `i` at a key's opening
/// quote, recording the last occurrence of `frq`, `vol` and `grd`; yields
/// the record and the position after the closing brace.
pub open spec fn spec_fields(s: Seq<u8>, i: int, acc: FieldsAcc) -> Option<(FieldsAcc, int)>
    decreases s.len() - i,
{
    if i < 0 || i >= s.len() || s[i] != QUOTE {
        None
    } else {
        match spec_str_end(s, i + 1) {
            None => None,
            Some(e1) => {
                let c = spec_ws(s, e1);
                if !(0 <= c < s.len() && s[c] == COLON) {
                    None
                } else {
                    let v = spec_ws(s, c + 1);
                    if v <= i || v > s.len() {
                        None
                    } else {
                        let which: int = if e1 == i + 5 && s[i + 1] == 102 && s[i + 2] == 114 && s[i
                            + 3] == 113 {
                            0int  // frq
                        } else if e1 == i + 5 && s[i + 1] == 118 && s[i + 2] == 111 && s[i + 3]
                            == 108 {
                            1int  // vol
                        } else if e1 == i + 5 && s[i + 1] == 103 && s[i + 2] == 114 && s[i + 3]
                            == 100 {
                            2int  // grd
                        } else {
                            3int
                        };
                        let step: Option<(FieldsAcc, int)> = if which == 3 {
                            match spec_skip_value(s, v) {
                                None => None,
                                Some(ve) => Some((acc, ve)),
                            }
                        } else if v < s.len() && (s[v] == MINUS || is_digit(s[v])) {
                            match spec_num(s, v) {
                                None => None,
                                Some((od, ve)) => Some((spec_record(acc, which, Some(od)), ve)),
                            }
                        } else {
                            match spec_skip_value(s, v) {
                                None => None,
                                Some(ve) => Some((spec_record(acc, which, Some(None)), ve)),
                            }
                        };
                        match step {
                            None => None,
                            Some((acc2, ve)) => {
                                let t = spec_ws(s, ve);
                                if 0 <= t < s.len() && s[t] == RBRACE {
                                    Some((acc2, t + 1))
                                } else if 0 <= t < s.len() && s[t] == COMMA {
                                    let k = spec_ws(s, t + 1);
                                    if k <= i || k > s.len() {
                                        None
                                    } else {
                                        spec_fields(s, k, acc2)
                                    }
                                } else {
                                    None
                                }
                            },
                        }
                    }
                }
            },
        }
    }
}

/// Overwrites one field of the record.
pub open spec fn spec_record(acc: FieldsAcc, which: int, x: Option<Option<Dec>>) -> FieldsAcc {
    if which == 0 {
        FieldsAcc { frq: x, ..acc }
    } else if which == 1 {
        FieldsAcc { vol: x, ..acc }
    } else {
        FieldsAcc { grd: x, ..acc }
    }
}

/// What one `zappi` array yields, `i` at its opening bracket: what was
/// seen of the first element, and the position after the closing bracket.
pub open spec fn spec_zappi_array(s: Seq<u8>, i: int) -> Option<(ZappiSeen, int)> {
    if !(0 <= i < s.len() && s[i] == LBRACK) {
        None
    } else {
        let w = spec_ws(s, i + 1);
        if w < s.len() && s[w] == RBRACK {
            Some((ZappiSeen::Empty, w + 1))
        } else if w >= s.len() || w < 0 {
            None
        } else if s[w] == LBRACE {
            let inner = spec_ws(s, w + 1);
            if inner < s.len() && 0 <= inner && s[inner] == RBRACE {
                spec_arr_tail(s, inner + 1, ZappiSeen::Bad)
            } else {
                match spec_fields(s, inner, FieldsAcc { frq: None, vol: None, grd: None }) {
                    None => None,
                    Some((acc, oe)) => {
                        let seen = match (acc.frq, acc.vol, acc.grd) {
                            (
                                Some(Some(f)),
                                Some(Some(vv)),
                                Some(Some(g)),
                            ) => ZappiSeen::Good(RawStats { frq: f, vol: vv, grd: g }),
                            _ => ZappiSeen::Bad,
                        };
                        spec_arr_tail(s, oe, seen)
                    },
                }
            }
        } else {
            match spec_skip_value(s, w) {
                None => None,
                Some(e) => spec_arr_tail(s, e, ZappiSeen::Bad),
            }
        }
    }
}

/// After the first element, ending at `p`: the remaining elements are
/// skipped and the closing bracket consumed.
pub open spec fn spec_arr_tail(s: Seq<u8>, p: int, seen: ZappiSeen) -> Option<(ZappiSeen, int)> {
    let t = spec_ws(s, p);
    if 0 <= t < s.len() && s[t] == RBRACK {
        Some((seen, t + 1))
    } else if 0 <= t < s.len() && s[t] == COMMA {
        let k = spec_ws(s, t + 1);
        match spec_skip_elems(s, k) {
            None => None,
            Some(e) => Some((seen, e)),
        }
    } else {
        None
    }
}

/// Walks the top-level members, `i` at a key's opening quote, keeping what
/// the last `zappi` member yielded.
pub open spec fn spec_top(s: Seq<u8>, i: int, seen: Option<ZappiSeen>) -> Option<
    (Option<ZappiSeen>, int),
>
    decreases s.len() - i,
{
    if i < 0 || i >= s.len() || s[i] != QUOTE {
        None
    } else {
        match spec_str_end(s, i + 1) {
            None => None,
            Some(e1) => {
                let c = spec_ws(s, e1);
                if !(0 <= c < s.len() && s[c] == COLON) {
                    None
                } else {
                    let v = spec_ws(s, c + 1);
                    if v <= i || v > s.len() {
                        None
                    } else {
                        let is_zappi = e1 == i + 7 && s[i + 1] == 122 && s[i + 2] == 97 && s[i + 3]
                            == 112 && s[i + 4] == 112 && s[i + 5] == 105;
                        let step: Option<(Option<ZappiSeen>, int)> = if is_zappi {
                            if v < s.len() && s[v] == LBRACK {
                                match spec_zappi_array(s, v) {
                                    None => None,
                                    Some((zs, e)) => Some((Some(zs), e)),
                                }
                            } else {
                                match spec_skip_value(s, v) {
                                    None => None,
                                    Some(e) => Some((Some(ZappiSeen::NotArray), e)),
                                }
                            }
                        } else {
                            match spec_skip_value(s, v) {
                                None => None,
                                Some(e) => Some((seen, e)),
                            }
                        };
                        match step {
                            None => None,
                            Some((seen2, ve)) => {
                                let t = spec_ws(s, ve);
                                if 0 <= t < s.len() && s[t] == RBRACE {
                                    Some((seen2, t + 1))
                                } else if 0 <= t < s.len() && s[t] == COMMA {
                                    let k = spec_ws(s, t + 1);
                                    if k <= i || k > s.len() {
                                        None
                                    } else {
                                        spec_top(s, k, seen2)
                                    }
                                } else {
                                    None
                                }
                            },
                        }
                    }
                }
            },
        }
    }
}

/// What the whole body yields: the raw fields of the first `zappi`
/// element, or the error naming the first problem in document order.
pub open spec fn spec_parse_raw(s: Seq<u8>) -> Result<RawStats, ParseError> {
    let j = spec_ws(s, 0);
    if !(0 <= j < s.len() && s[j] == LBRACE) {
        Err(ParseError::BadJson)
    } else {
        let w = spec_ws(s, j + 1);
        let walked: Result<(Option<ZappiSeen>, int), ParseError> = if 0 <= w < s.len() && s[w]
            == RBRACE {
            Ok((None, w + 1))
        } else {
            match spec_top(s, w, None) {
                None => Err(ParseError::BadJson),
                Some((seen, e)) => Ok((seen, e)),
            }
        };
        match walked {
            Err(e) => Err(e),
            Ok((seen, e)) => {
                let t = spec_ws(s, e);
                if t != s.len() {
                    Err(ParseError::BadJson)
                } else {
                    match seen {
                        None => Err(ParseError::NoZappi),
                        Some(ZappiSeen::NotArray) => Err(ParseError::NoZappi),
                        Some(ZappiSeen::Empty) => Err(ParseError::EmptyZappi),
                        Some(ZappiSeen::Bad) => Err(ParseError::BadField),
                        Some(ZappiSeen::Good(raw)) => Ok(raw),
                    }
                }
            },
        }
    }
}

/// The reading published for raw fields: `frq` and `grd` verbatim, `vol`
/// divided by ten.
pub open spec fn spec_mk_reading(raw: RawStats) -> Reading {
    Reading {
        power_freq: raw.frq,
        supply_voltage: Dec { neg: raw.vol.neg, mant: raw.vol.mant, exp: (raw.vol.exp - 1) as i64 },
        grid_usage: raw.grd,
    }
}

/// What `retrieve_stats` returns for a body.
pub open spec fn spec_retrieve(s: Seq<u8>) -> Result<Reading, ParseError> {
    match spec_parse_raw(s) {
        Ok(raw) => Ok(spec_mk_reading(raw)),
        Err(e) => Err(e),
    }
}

pub open spec fn opt_pos(r: Option<usize>) -> Option<int> {
    match r {
        Some(u) => Some(u as int),
        None => None,
    }
}

pub open spec fn opt_numres(r: Option<(Option<Dec>, usize)>) -> Option<(Option<Dec>, int)> {
    match r {
        Some((od, u)) => Some((od, u as int)),
        None => None,
    }
}

pub open spec fn opt_frac(r: Option<(usize, usize)>) -> Option<(int, int)> {
    match r {
        Some((a, b)) => Some((a as int, b as int)),
        None => None,
    }
}

pub open spec fn opt_exp(r: Option<(bool, usize, usize)>) -> Option<(bool, int, int)> {
    match r {
        Some((n, a, b)) => Some((n, a as int, b as int)),
        None => None,
    }
}

pub open spec fn opt_fields(r: Option<(FieldsAcc, usize)>) -> Option<(FieldsAcc, int)> {
    match r {
        Some((a, u)) => Some((a, u as int)),
        None => None,
    }
}

pub open spec fn opt_zr(r: Option<(ZappiSeen, usize)>) -> Option<(ZappiSeen, int)> {
    match r {
        Some((z, u)) => Some((z, u as int)),
        None => None,
    }
}

pub open spec fn opt_top(r: Option<(Option<ZappiSeen>, usize)>) -> Option<(Option<ZappiSeen>, int)> {
    match r {
        Some((z, u)) => Some((z, u as int)),
        None => None,
    }
}

pub open spec fn zseen_ok(z: ZappiSeen) -> bool {
    match z {
        ZappiSeen::Good(raw) => dec_parsed(raw.frq) && dec_parsed(raw.vol) && dec_parsed(raw.grd),
        _ => true,
    }
}

fn is_ws_e(c: u8) -> (b: bool)
    ensures
        b == is_ws(c),
{
    c == 32 || c == 9 || c == 10 || c == 13
}

fn ws(s: &[u8], i: usize) -> (j: usize)
    requires
        i <= s@.len(),
    ensures
        j == spec_ws(s@, i as int),
        i <= j <= s@.len(),
    decreases s@.len() - i,
{
    if i < s.len() && is_ws_e(s[i]) {
        ws(s, i + 1)
    } else {
        i
    }
}

fn digits_end(s: &[u8], i: usize) -> (j: usize)
    requires
        i <= s@.len(),
    ensures
        j == spec_digits_end(s@, i as int),
        i <= j <= s@.len(),
    decreases s@.len() - i,
{
    if i < s.len() && DIGIT0 <= s[i] && s[i] <= DIGIT9 {
        digits_end(s, i + 1)
    } else {
        i
    }
}

fn acc_digits(s: &[u8], lo: usize, hi: usize, acc: u64) -> (r: Option<u64>)
    requires
        lo <= s@.len(),
        hi <= s@.len(),
    ensures
        r == spec_acc_digits(s@, lo as int, hi as int, acc),
    decreases hi - lo,
{
    if lo >= hi {
        Some(acc)
    } else if !(DIGIT0 <= s[lo] && s[lo] <= DIGIT9) {
        None
    } else {
        let d = (s[lo] - DIGIT0) as u64;
        if acc <= (u64::MAX - d) / 10 {
            assert(10 * acc + d <= u64::MAX) by (nonlinear_arith)
                requires
                    acc <= (u64::MAX - d) / 10,
                    d <= 9,
            ;
            acc_digits(s, lo + 1, hi, 10 * acc + d)
        } else {
            None
        }
    }
}

fn str_end(s: &[u8], i: usize) -> (r: Option<usize>)
    requires
        i <= s@.len(),
    ensures
        opt_pos(r) == spec_str_end(s@, i as int),
        r matches Some(j) ==> i < j <= s@.len(),
    decreases s@.len() - i,
{
    if i >= s.len() {
        None
    } else if s[i] == QUOTE {
        Some(i + 1)
    } else if s[i] == BSLASH {
        if s.len() - i >= 2 {
            str_end(s, i + 2)
        } else {
            None
        }
    } else {
        str_end(s, i + 1)
    }
}

fn frac_part(s: &[u8], ihi: usize) -> (r: Option<(usize, usize)>)
    requires
        ihi <= s@.len(),
    ensures
        opt_frac(r) == spec_frac_part(s@, ihi as int),
        r matches Some((flo, fhi)) ==> ihi <= fhi <= s@.len() && flo <= fhi,
{
    if ihi < s.len() && s[ihi] == DOT {
        let flo = ihi + 1;
        let fhi = digits_end(s, flo);
        if fhi == flo {
            None
        } else {
            Some((flo, fhi))
        }
    } else {
        Some((ihi, ihi))
    }
}

fn exp_part(s: &[u8], p: usize) -> (r: Option<(bool, usize, usize)>)
    requires
        p <= s@.len(),
    ensures
        opt_exp(r) == spec_exp_part(s@, p as int),
        r matches Some((eneg, elo, ehi)) ==> p <= ehi <= s@.len() && elo <= ehi,
{
    if p < s.len() && (s[p] == LOW_E || s[p] == UP_E) {
        let eneg = p + 1 < s.len() && s[p + 1] == MINUS;
        let elo = if p + 1 < s.len() && (s[p + 1] == MINUS || s[p + 1] == PLUS) {
            p + 2
        } else {
            p + 1
        };
        let ehi = digits_end(s, elo);
        if ehi == elo {
            None
        } else {
            Some((eneg, elo, ehi))
        }
    } else {
        Some((false, p, p))
    }
}

fn parse_num(s: &[u8], i: usize) -> (r: Option<(Option<Dec>, usize)>)
    requires
        i <= s@.len(),
    ensures
        opt_numres(r) == spec_num(s@, i as int),
        r matches Some((od, end)) ==> end <= s@.len() && (od matches Some(d) ==> dec_parsed(d)),
{
    if i >= s.len() {
        None
    } else {
        let neg = s[i] == MINUS;
        let j = if neg {
            i + 1
        } else {
            i
        };
        if j >= s.len() || !(DIGIT0 <= s[j] && s[j] <= DIGIT9) {
            None
        } else {
            let ihi = if s[j] == DIGIT0 {
                j + 1
            } else {
                digits_end(s, j)
            };
            match frac_part(s, ihi) {
                None => None,
                Some((flo, fhi)) => match exp_part(s, fhi) {
                    None => None,
                    Some((eneg, elo, ehi)) => {
                        let end = if ehi == fhi {
                            fhi
                        } else {
                            ehi
                        };
                        let dec = match acc_digits(s, j, ihi, 0) {
                            None => None,
                            Some(m0) => match acc_digits(s, flo, fhi, m0) {
                                None => None,
                                Some(m) => match acc_digits(s, elo, ehi, 0) {
                                    None => None,
                                    Some(ev) => {
                                        let total: i128 = (if eneg {
                                            -(ev as i128)
                                        } else {
                                            ev as i128
                                        }) - ((fhi - flo) as i128);
                                        if -(NUM_EXP_BOUND as i128) <= total && total
                                            <= NUM_EXP_BOUND as i128 {
                                            Some(Dec { neg, mant: m, exp: total as i64 })
                                        } else {
                                            None
                                        }
                                    },
                                },
                            },
                        };
                        Some((dec, end))
                    },
                },
            }
        }
    }
}

fn skip_value(s: &[u8], i: usize) -> (r: Option<usize>)
    requires
        i <= s@.len(),
    ensures
        opt_pos(r) == spec_skip_value(s@, i as int),
        r matches Some(j) ==> j <= s@.len(),
    decreases s@.len() - i, 1int,
{
    if i >= s.len() {
        None
    } else if s[i] == LBRACE {
        let w = ws(s, i + 1);
        if w < s.len() && s[w] == RBRACE {
            Some(w + 1)
        } else if w <= i {
            None
        } else {
            skip_members(s, w)
        }
    } else if s[i] == LBRACK {
        let w = ws(s, i + 1);
        if w < s.len() && s[w] == RBRACK {
            Some(w + 1)
        } else if w <= i {
            None
        } else {
            skip_elems(s, w)
        }
    } else if s[i] == QUOTE {
        str_end(s, i + 1)
    } else if s[i] == 116 {
        if s.len() - i >= 4 && s[i + 1] == 114 && s[i + 2] == 117 && s[i + 3] == 101 {
            Some(i + 4)
        } else {
            None
        }
    } else if s[i] == 102 {
        if s.len() - i >= 5 && s[i + 1] == 97 && s[i + 2] == 108 && s[i + 3] == 115 && s[i + 4]
            == 101 {
            Some(i + 5)
        } else {
            None
        }
    } else if s[i] == 110 {
        if s.len() - i >= 4 && s[i + 1] == 117 && s[i + 2] == 108 && s[i + 3] == 108 {
            Some(i + 4)
        } else {
            None
        }
    } else if s[i] == MINUS || (DIGIT0 <= s[i] && s[i] <= DIGIT9) {
        match parse_num(s, i) {
            None => None,
            Some((_, end)) => Some(end),
        }
    } else {
        None
    }
}

fn skip_members(s: &[u8], i: usize) -> (r: Option<usize>)
    requires
        i <= s@.len(),
    ensures
        opt_pos(r) == spec_skip_members(s@, i as int),
        r matches Some(j) ==> j <= s@.len(),
    decreases s@.len() - i, 2int,
{
    if i >= s.len() || s[i] != QUOTE {
        None
    } else {
        match str_end(s, i + 1) {
            None => None,
            Some(e1) => {
                let c = ws(s, e1);
                if !(c < s.len() && s[c] == COLON) {
                    None
                } else {
                    let v = ws(s, c + 1);
                    if v <= i {
                        None
                    } else {
                        match skip_value(s, v) {
                            None => None,
                            Some(ve) => {
                                let t = ws(s, ve);
                                if t < s.len() && s[t] == RBRACE {
                                    Some(t + 1)
                                } else if t < s.len() && s[t] == COMMA {
                                    let k = ws(s, t + 1);
                                    if k <= i {
                                        None
                                    } else {
                                        skip_members(s, k)
                                    }
                                } else {
                                    None
                                }
                            },
                        }
                    }
                }
            },
        }
    }
}

fn skip_elems(s: &[u8], i: usize) -> (r: Option<usize>)
    requires
        i <= s@.len(),
    ensures
        opt_pos(r) == spec_skip_elems(s@, i as int),
        r matches Some(j) ==> j <= s@.len(),
    decreases s@.len() - i, 2int,
{
    if i >= s.len() {
        None
    } else {
        match skip_value(s, i) {
            None => None,
            Some(ve) => {
                let t = ws(s, ve);
                if t < s.len() && s[t] == RBRACK {
                    Some(t + 1)
                } else if t < s.len() && s[t] == COMMA {
                    let k = ws(s, t + 1);
                    if k <= i {
                        None
                    } else {
                        skip_elems(s, k)
                    }
                } else {
                    None
                }
            },
        }
    }
}

fn record(acc: FieldsAcc, which: usize, x: Option<Option<Dec>>) -> (r: FieldsAcc)
    ensures
        r == spec_record(acc, which as int, x),
{
    if which == 0 {
        FieldsAcc { frq: x, ..acc }
    } else if which == 1 {
        FieldsAcc { vol: x, ..acc }
    } else {
        FieldsAcc { grd: x, ..acc }
    }
}

fn fields_walk(s: &[u8], i: usize, acc: FieldsAcc) -> (r: Option<(FieldsAcc, usize)>)
    requires
        i <= s@.len(),
        fields_ok(acc),
    ensures
        opt_fields(r) == spec_fields(s@, i as int, acc),
        r matches Some((a2, e)) ==> fields_ok(a2) && e <= s@.len(),
    decreases s@.len() - i,
{
    if i >= s.len() || s[i] != QUOTE {
        None
    } else {
        match str_end(s, i + 1) {
            None => None,
            Some(e1) => {
                let c = ws(s, e1);
                if !(c < s.len() && s[c] == COLON) {
                    None
                } else {
                    let v = ws(s, c + 1);
                    if v <= i {
                        None
                    } else {
                        let which: usize = if e1 - i == 5 && s[i + 1] == 102 && s[i + 2] == 114
                            && s[i + 3] == 113 {
                            0
                        } else if e1 - i == 5 && s[i + 1] == 118 && s[i + 2] == 111 && s[i + 3]
                            == 108 {
                            1
                        } else if e1 - i == 5 && s[i + 1] == 103 && s[i + 2] == 114 && s[i + 3]
                            == 100 {
                            2
                        } else {
                            3
                        };
                        let step: Option<(FieldsAcc, usize)> = if which == 3 {
                            match skip_value(s, v) {
                                None => None,
                                Some(ve) => Some((acc, ve)),
                            }
                        } else if v < s.len() && (s[v] == MINUS || (DIGIT0 <= s[v] && s[v]
                            <= DIGIT9)) {
                            match parse_num(s, v) {
                                None => None,
                                Some((od, ve)) => Some((record(acc, which, Some(od)), ve)),
                            }
                        } else {
                            match skip_value(s, v) {
                                None => None,
                                Some(ve) => Some((record(acc, which, Some(None)), ve)),
                            }
                        };
                        match step {
                            None => None,
                            Some((acc2, ve)) => {
                                let t = ws(s, ve);
                                if t < s.len() && s[t] == RBRACE {
                                    Some((acc2, t + 1))
                                } else if t < s.len() && s[t] == COMMA {
                                    let k = ws(s, t + 1);
                                    if k <= i {
                                        None
                                    } else {
                                        fields_walk(s, k, acc2)
                                    }
                                } else {
                                    None
                                }
                            },
                        }
                    }
                }
            },
        }
    }
}

fn arr_tail(s: &[u8], p: usize, seen: ZappiSeen) -> (r: Option<(ZappiSeen, usize)>)
    requires
        p <= s@.len(),
        zseen_ok(seen),
    ensures
        opt_zr(r) == spec_arr_tail(s@, p as int, seen),
        r matches Some((z2, e)) ==> zseen_ok(z2) && e <= s@.len(),
{
    let t = ws(s, p);
    if t < s.len() && s[t] == RBRACK {
        Some((seen, t + 1))
    } else if t < s.len() && s[t] == COMMA {
        let k = ws(s, t + 1);
        match skip_elems(s, k) {
            None => None,
            Some(e) => Some((seen, e)),
        }
    } else {
        None
    }
}

fn zappi_array(s: &[u8], i: usize) -> (r: Option<(ZappiSeen, usize)>)
    requires
        i <= s@.len(),
    ensures
        opt_zr(r) == spec_zappi_array(s@, i as int),
        r matches Some((z2, e)) ==> zseen_ok(z2) && e <= s@.len(),
{
    if !(i < s.len() && s[i] == LBRACK) {
        None
    } else {
        let w = ws(s, i + 1);
        if w < s.len() && s[w] == RBRACK {
            Some((ZappiSeen::Empty, w + 1))
        } else if w >= s.len() {
            None
        } else if s[w] == LBRACE {
            let inner = ws(s, w + 1);
            if inner < s.len() && s[inner] == RBRACE {
                arr_tail(s, inner + 1, ZappiSeen::Bad)
            } else {
                match fields_walk(s, inner, FieldsAcc { frq: None, vol: None, grd: None }) {
                    None => None,
                    Some((acc, oe)) => {
                        let seen = match (acc.frq, acc.vol, acc.grd) {
                            (
                                Some(Some(f)),
                                Some(Some(vv)),
                                Some(Some(g)),
                            ) => ZappiSeen::Good(RawStats { frq: f, vol: vv, grd: g }),
                            _ => ZappiSeen::Bad,
                        };
                        arr_tail(s, oe, seen)
                    },
                }
            }
        } else {
            match skip_value(s, w) {
                None => None,
                Some(e) => arr_tail(s, e, ZappiSeen::Bad),
            }
        }
    }
}

fn top_walk(s: &[u8], i: usize, seen: Option<ZappiSeen>) -> (r: Option<(Option<ZappiSeen>, usize)>)
    requires
        i <= s@.len(),
        seen_ok(seen),
    ensures
        opt_top(r) == spec_top(s@, i as int, seen),
        r matches Some((z2, e)) ==> seen_ok(z2) && e <= s@.len(),
    decreases s@.len() - i,
{
    if i >= s.len() || s[i] != QUOTE {
        None
    } else {
        match str_end(s, i + 1) {
            None => None,
            Some(e1) => {
                let c = ws(s, e1);
                if !(c < s.len() && s[c] == COLON) {
                    None
                } else {
                    let v = ws(s, c + 1);
                    if v <= i {
                        None
                    } else {
                        let is_zappi = e1 - i == 7 && s[i + 1] == 122 && s[i + 2] == 97 && s[i + 3]
                            == 112 && s[i + 4] == 112 && s[i + 5] == 105;
                        let step: Option<(Option<ZappiSeen>, usize)> = if is_zappi {
                            if v < s.len() && s[v] == LBRACK {
                                match zappi_array(s, v) {
                                    None => None,
                                    Some((zs, e)) => Some((Some(zs), e)),
                                }
                            } else {
                                match skip_value(s, v) {
                                    None => None,
                                    Some(e) => Some((Some(ZappiSeen::NotArray), e)),
                                }
                            }
                        } else {
                            match skip_value(s, v) {
                                None => None,
                                Some(e) => Some((seen, e)),
                            }
                        };
                        match step {
                            None => None,
                            Some((seen2, ve)) => {
                                let t = ws(s, ve);
                                if t < s.len() && s[t] == RBRACE {
                                    Some((seen2, t + 1))
                                } else if t < s.len() && s[t] == COMMA {
                                    let k = ws(s, t + 1);
                                    if k <= i {
                                        None
                                    } else {
                                        top_walk(s, k, seen2)
                                    }
                                } else {
                                    None
                                }
                            },
                        }
                    }
                }
            },
        }
    }
}

/// Parses the whole body into the raw device fields.
pub fn parse_raw(s: &[u8]) -> (r: Result<RawStats, ParseError>)
    ensures
        r == spec_parse_raw(s@),
        r matches Ok(raw) ==> dec_parsed(raw.frq) && dec_parsed(raw.vol) && dec_parsed(raw.grd),
{
    let j = ws(s, 0);
    if !(j < s.len() && s[j] == LBRACE) {
        Err(ParseError::BadJson)
    } else {
        let w = ws(s, j + 1);
        let walked: Result<(Option<ZappiSeen>, usize), ParseError> = if w < s.len() && s[w]
            == RBRACE {
            Ok((None, w + 1))
        } else {
            match top_walk(s, w, None) {
                None => Err(ParseError::BadJson),
                Some((seen, e)) => Ok((seen, e)),
            }
        };
        match walked {
            Err(e) => Err(e),
            Ok((seen, e)) => {
                let t = ws(s, e);
                if t != s.len() {
                    Err(ParseError::BadJson)
                } else {
                    match seen {
                        None => Err(ParseError::NoZappi),
                        Some(ZappiSeen::NotArray) => Err(ParseError::NoZappi),
                        Some(ZappiSeen::Empty) => Err(ParseError::EmptyZappi),
                        Some(ZappiSeen::Bad) => Err(ParseError::BadField),
                        Some(ZappiSeen::Good(raw)) => Ok(raw),
                    }
                }
            },
        }
    }
}

/// Extracts the published reading from one poll's body: the first `zappi`
/// element's `frq`, `vol` and `grd`, with `vol` divided by ten.
pub fn retrieve_stats(body: &[u8]) -> (r: Result<Reading, ParseError>)
    ensures
        r == spec_retrieve(body@),
        r matches Ok(rd) ==> reading_wf(rd),
{
    match parse_raw(body) {
        Err(e) => Err(e),
        Ok(raw) => {
            let sv = dec_div10(raw.vol);
            Ok(Reading { power_freq: raw.frq, supply_voltage: sv, grid_usage: raw.grd })
        },
    }
}

/// Every number the parser accepts keeps its exponent inside the bound.
proof fn lemma_num_parsed(s: Seq<u8>, i: int)
    ensures
        spec_num(s, i) matches Some((Some(d), e)) ==> dec_parsed(d),
{
}

/// The field walk only ever records parsed numbers, so a record that
/// started within bounds stays within bounds.
proof fn lemma_fields_parsed(s: Seq<u8>, i: int, acc: FieldsAcc)
    requires
        fields_ok(acc),
    ensures
        spec_fields(s, i, acc) matches Some((a2, e)) ==> fields_ok(a2),
    decreases s.len() - i,
{
    if 0 <= i < s.len() && s[i] == QUOTE {
        match spec_str_end(s, i + 1) {
            None => {},
            Some(e1) => {
                let c = spec_ws(s, e1);
                if 0 <= c < s.len() && s[c] == COLON {
                    let v = spec_ws(s, c + 1);
                    if !(v <= i || v > s.len()) {
                        lemma_num_parsed(s, v);
                        let which: int = if e1 == i + 5 && s[i + 1] == 102 && s[i + 2] == 114 && s[i
                            + 3] == 113 {
                            0int
                        } else if e1 == i + 5 && s[i + 1] == 118 && s[i + 2] == 111 && s[i + 3]
                            == 108 {
                            1int
                        } else if e1 == i + 5 && s[i + 1] == 103 && s[i + 2] == 114 && s[i + 3]
                            == 100 {
                            2int
                        } else {
                            3int
                        };
                        let step: Option<(FieldsAcc, int)> = if which == 3 {
                            match spec_skip_value(s, v) {
                                None => None,
                                Some(ve) => Some((acc, ve)),
                            }
                        } else if v < s.len() && (s[v] == MINUS || is_digit(s[v])) {
                            match spec_num(s, v) {
                                None => None,
                                Some((od, ve)) => Some((spec_record(acc, which, Some(od)), ve)),
                            }
                        } else {
                            match spec_skip_value(s, v) {
                                None => None,
                                Some(ve) => Some((spec_record(acc, which, Some(None)), ve)),
                            }
                        };
                        match step {
                            None => {},
                            Some((acc2, ve)) => {
                                assert(fields_ok(acc2));
                                let t = spec_ws(s, ve);
                                if 0 <= t < s.len() && s[t] == COMMA {
                                    let k = spec_ws(s, t + 1);
                                    if !(k <= i || k > s.len()) {
                                        lemma_fields_parsed(s, k, acc2);
                                    }
                                }
                            },
                        }
                    }
                }
            },
        }
    }
}

/// What the first element yields stays within bounds through the rest of
/// the array.
proof fn lemma_zappi_parsed(s: Seq<u8>, i: int)
    ensures
        spec_zappi_array(s, i) matches Some((z, e)) ==> zseen_ok(z),
{
    if 0 <= i < s.len() && s[i] == LBRACK {
        let w = spec_ws(s, i + 1);
        if w < s.len() && s[w] == RBRACK {
        } else if !(w >= s.len() || w < 0) && s[w] == LBRACE {
            let inner = spec_ws(s, w + 1);
            if !(inner < s.len() && 0 <= inner && s[inner] == RBRACE) {
                lemma_fields_parsed(
                    s,
                    inner,
                    FieldsAcc { frq: None, vol: None, grd: None },
                );
            }
        }
    }
}

/// The walk over the top-level members keeps whatever it has seen of
/// `zappi` within bounds.
proof fn lemma_top_parsed(s: Seq<u8>, i: int, seen: Option<ZappiSeen>)
    requires
        seen_ok(seen),
    ensures
        spec_top(s, i, seen) matches Some((z2, e)) ==> seen_ok(z2),
    decreases s.len() - i,
{
    if 0 <= i < s.len() && s[i] == QUOTE {
        match spec_str_end(s, i + 1) {
            None => {},
            Some(e1) => {
                let c = spec_ws(s, e1);
                if 0 <= c < s.len() && s[c] == COLON {
                    let v = spec_ws(s, c + 1);
                    if !(v <= i || v > s.len()) {
                        lemma_zappi_parsed(s, v);
                        let is_zappi = e1 == i + 7 && s[i + 1] == 122 && s[i + 2] == 97 && s[i + 3]
                            == 112 && s[i + 4] == 112 && s[i + 5] == 105;
                        let step: Option<(Option<ZappiSeen>, int)> = if is_zappi {
                            if v < s.len() && s[v] == LBRACK {
                                match spec_zappi_array(s, v) {
                                    None => None,
                                    Some((zs, e)) => Some((Some(zs), e)),
                                }
                            } else {
                                match spec_skip_value(s, v) {
                                    None => None,
                                    Some(e) => Some((Some(ZappiSeen::NotArray), e)),
                                }
                            }
                        } else {
                            match spec_skip_value(s, v) {
                                None => None,
                                Some(e) => Some((seen, e)),
                            }
                        };
                        match step {
                            None => {},
                            Some((seen2, ve)) => {
                                assert(seen_ok(seen2));
                                let t = spec_ws(s, ve);
                                if 0 <= t < s.len() && s[t] == COMMA {
                                    let k = spec_ws(s, t + 1);
                                    if !(k <= i || k > s.len()) {
                                        lemma_top_parsed(s, k, seen2);
                                    }
                                }
                            },
                        }
                    }
                }
            },
        }
    }
}

/// Whatever body the parser accepts, the raw fields it hands out are
/// well-formed decimals.
pub proof fn lemma_parse_raw_wf(s: Seq<u8>)
    ensures
        spec_parse_raw(s) matches Ok(raw) ==> dec_wf(raw.frq) && dec_wf(raw.vol) && dec_wf(
            raw.grd,
        ),
{
    let j = spec_ws(s, 0);
    if 0 <= j < s.len() && s[j] == LBRACE {
        let w = spec_ws(s, j + 1);
        if !(0 <= w < s.len() && s[w] == RBRACE) {
            lemma_top_parsed(s, w, None);
        }
    }
}

/// For every well-formed device response, the published supply voltage is
/// the device's raw `vol` divided by ten, exactly: ten times its scaled
/// value gives the raw value back, while `frq` and `grd` pass verbatim.
pub proof fn lemma_supply_voltage_div_ten(s: Seq<u8>, raw: RawStats)
    requires
        spec_parse_raw(s) == Ok::<RawStats, ParseError>(raw),
    ensures
        spec_retrieve(s) == Ok::<Reading, ParseError>(spec_mk_reading(raw)),
        10 * dec_scaled(spec_mk_reading(raw).supply_voltage) == dec_scaled(raw.vol),
        spec_mk_reading(raw).power_freq == raw.frq,
        spec_mk_reading(raw).grid_usage == raw.grd,
{
    lemma_parse_raw_wf(s);
    lemma_div10_exact(raw.vol);
}

} // verus!
