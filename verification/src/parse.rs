//! Numeric and time-argument parsing for the command surface.
//!
//! Arguments arrive as byte strings. Times come as plain seconds,
//! `mm:ss`, or `hh:mm:ss`; any other shape is a format error.

use vstd::prelude::*;
use vstd::slice::slice_subrange;
use crate::error::Error;

verus! {

/// An ASCII decimal digit.
pub open spec fn is_digit(b: u8) -> bool {
    48 <= b <= 57
}

/// Every byte is a digit.
pub open spec fn all_digits(s: Seq<u8>) -> bool {
    forall|i: int| 0 <= i < s.len() ==> is_digit(#[trigger] s[i])
}

/// The decimal value of a digit string.
pub open spec fn dec_val(s: Seq<u8>) -> int
    decreases s.len(),
{
    if s.len() == 0 {
        0
    } else {
        dec_val(s.drop_last()) * 10 + (s.last() - 48)
    }
}

/// A byte string a `u64` parse accepts: nonempty, digits, in range.
pub open spec fn u64_ok(s: Seq<u8>) -> bool {
    s.len() > 0 && all_digits(s) && dec_val(s) <= u64::MAX
}

/// The position of the first `b` at or after `i`, or `-1`.
pub open spec fn find_byte_from(s: Seq<u8>, b: u8, i: int) -> int
    recommends
        0 <= i <= s.len(),
    decreases s.len() - i when 0 <= i <= s.len()
{
    if i >= s.len() {
        -1
    } else if s[i] == b {
        i
    } else {
        find_byte_from(s, b, i + 1)
    }
}

/// A value never shrinks when digits are appended on the right.
proof fn lemma_dec_val_extend(s: Seq<u8>, k: int)
    requires
        0 <= k <= s.len(),
        dec_val(s.take(k)) >= 0,
        forall|i: int| k <= i < s.len() ==> is_digit(#[trigger] s[i]),
    ensures
        dec_val(s) >= dec_val(s.take(k)),
    decreases s.len() - k,
{
    if k < s.len() {
        let t = s.take(k + 1);
        assert(t.drop_last() =~= s.take(k));
        assert(t.last() == s[k]);
        assert(dec_val(t) == dec_val(s.take(k)) * 10 + (s[k] - 48));
        assert(dec_val(s.take(k)) * 10 >= dec_val(s.take(k))) by (nonlinear_arith)
            requires
                dec_val(s.take(k)) >= 0,
        ;
        lemma_dec_val_extend(s, k + 1);
    } else {
        assert(s.take(k) =~= s);
    }
}

/// Skipping a prefix without the byte does not change the search.
proof fn lemma_find_byte_prefix(s: Seq<u8>, b: u8, k: int)
    requires
        0 <= k <= s.len(),
        forall|j: int| 0 <= j < k ==> s[j] != b,
    ensures
        find_byte_from(s, b, 0) == find_byte_from(s, b, k),
    decreases k,
{
    if k > 0 {
        lemma_find_byte_prefix(s, b, k - 1);
    }
}

/// Finds the first occurrence of `b` in `s`.
fn find_byte(s: &[u8], b: u8) -> (r: Option<usize>)
    ensures
        match r {
            Some(i) => i < s@.len() && find_byte_from(s@, b, 0) == i as int && s@[i as int] == b,
            None => find_byte_from(s@, b, 0) == -1,
        },
{
    let n = s.len();
    let mut i: usize = 0;
    while i < n
        invariant
            n == s@.len(),
            i <= n,
            forall|j: int| 0 <= j < i ==> s@[j] != b,
        decreases n - i,
    {
        if s[i] == b {
            proof {
                lemma_find_byte_prefix(s@, b, i as int);
            }
            return Some(i);
        }
        i = i + 1;
    }
    proof {
        lemma_find_byte_prefix(s@, b, n as int);
    }
    None
}

/// Parses an unsigned decimal number, exactly when the whole string is
/// nonempty, all digits, and the value fits.
pub fn parse_u64(s: &[u8]) -> (r: Result<u64, Error>)
    ensures
        match r {
            Ok(n) => u64_ok(s@) && n == dec_val(s@),
            Err(e) => e == Error::FormatError && !u64_ok(s@),
        },
{
    let n = s.len();
    if n == 0 {
        return Err(Error::FormatError);
    }
    let mut acc: u64 = 0;
    let mut i: usize = 0;
    while i < n
        invariant
            n == s@.len(),
            i <= n,
            forall|j: int| 0 <= j < i ==> is_digit(#[trigger] s@[j]),
            acc == dec_val(s@.take(i as int)),
        decreases n - i,
    {
        let b = s[i];
        if b < 48 || b > 57 {
            return Err(Error::FormatError);
        }
        let d: u64 = (b - 48) as u64;
        let next = match acc.checked_mul(10) {
            Some(m) => match m.checked_add(d) {
                Some(v) => v,
                None => {
                    proof {
                        let t = s@.take(i as int + 1);
                        assert(t.drop_last() =~= s@.take(i as int));
                        if all_digits(s@) {
                            lemma_dec_val_extend(s@, i as int + 1);
                        }
                    }
                    return Err(Error::FormatError);
                },
            },
            None => {
                proof {
                    let t = s@.take(i as int + 1);
                    assert(t.drop_last() =~= s@.take(i as int));
                    assert(acc * 10 + (s@[i as int] - 48) >= acc * 10 > u64::MAX);
                    if all_digits(s@) {
                        lemma_dec_val_extend(s@, i as int + 1);
                    }
                }
                return Err(Error::FormatError);
            },
        };
        proof {
            let t = s@.take(i as int + 1);
            assert(t.drop_last() =~= s@.take(i as int));
        }
        acc = next;
        i = i + 1;
    }
    proof {
        assert(s@.take(n as int) =~= s@);
    }
    Ok(acc)
}

/// The shape a time argument may take, and its value in seconds:
/// plain seconds, `mm:ss`, or `hh:mm:ss`, each field a `u64` and the
/// total in range; anything else has no value.
pub open spec fn time_val(s: Seq<u8>) -> Option<int> {
    if u64_ok(s) {
        Some(dec_val(s))
    } else {
        let c1 = find_byte_from(s, 58, 0);
        if c1 == -1 {
            None
        } else {
            let first = s.take(c1);
            let rest = s.skip(c1 + 1);
            let c2 = find_byte_from(rest, 58, 0);
            if c2 == -1 {
                if u64_ok(first) && u64_ok(rest) && dec_val(first) * 60 + dec_val(rest)
                    <= u64::MAX {
                    Some(dec_val(first) * 60 + dec_val(rest))
                } else {
                    None
                }
            } else {
                let second = rest.take(c2);
                let third = rest.skip(c2 + 1);
                if find_byte_from(third, 58, 0) != -1 {
                    None
                } else if u64_ok(first) && u64_ok(second) && u64_ok(third) && dec_val(first) * 3600
                    + dec_val(second) * 60 + dec_val(third) <= u64::MAX {
                    Some(dec_val(first) * 3600 + dec_val(second) * 60 + dec_val(third))
                } else {
                    None
                }
            }
        }
    }
}

/// Parses a playback time: seconds, `mm:ss`, or `hh:mm:ss`.
pub fn parse_time(s: &[u8]) -> (r: Result<u64, Error>)
    ensures
        match r {
            Ok(n) => time_val(s@) == Some(n as int),
            Err(e) => e == Error::FormatError && time_val(s@) is None,
        },
{
    match parse_u64(s) {
        Ok(n) => {
            return Ok(n);
        },
        Err(_) => {},
    }
    let c1 = match find_byte(s, 58) {
        Some(i) => i,
        None => {
            return Err(Error::FormatError);
        },
    };
    let n = s.len();
    let first = slice_subrange(s, 0, c1);
    let rest = slice_subrange(s, c1 + 1, n);
    proof {
        assert(first@ =~= s@.take(c1 as int));
        assert(rest@ =~= s@.skip(c1 as int + 1));
    }
    match find_byte(rest, 58) {
        None => {
            let m = match parse_u64(first) {
                Ok(v) => v,
                Err(e) => {
                    return Err(e);
                },
            };
            let sec = match parse_u64(rest) {
                Ok(v) => v,
                Err(e) => {
                    return Err(e);
                },
            };
            let total = match m.checked_mul(60) {
                Some(t) => match t.checked_add(sec) {
                    Some(v) => v,
                    None => {
                        return Err(Error::FormatError);
                    },
                },
                None => {
                    proof {
                        assert(m * 60 + sec > u64::MAX) by (nonlinear_arith)
                            requires
                                m * 60 > u64::MAX,
                                sec >= 0,
                        ;
                    }
                    return Err(Error::FormatError);
                },
            };
            Ok(total)
        },
        Some(c2) => {
            let rn = rest.len();
            let second = slice_subrange(rest, 0, c2);
            let third = slice_subrange(rest, c2 + 1, rn);
            proof {
                assert(second@ =~= rest@.take(c2 as int));
                assert(third@ =~= rest@.skip(c2 as int + 1));
            }
            match find_byte(third, 58) {
                Some(_) => Err(Error::FormatError),
                None => {
                    let h = match parse_u64(first) {
                        Ok(v) => v,
                        Err(e) => {
                            return Err(e);
                        },
                    };
                    let m = match parse_u64(second) {
                        Ok(v) => v,
                        Err(e) => {
                            return Err(e);
                        },
                    };
                    let sec = match parse_u64(third) {
                        Ok(v) => v,
                        Err(e) => {
                            return Err(e);
                        },
                    };
                    let hs = match h.checked_mul(3600) {
                        Some(t) => t,
                        None => {
                            proof {
                                assert(h * 3600 + m * 60 + sec > u64::MAX) by (nonlinear_arith)
                                    requires
                                        h * 3600 > u64::MAX,
                                        m >= 0,
                                        sec >= 0,
                                ;
                            }
                            return Err(Error::FormatError);
                        },
                    };
                    let ms = match m.checked_mul(60) {
                        Some(t) => t,
                        None => {
                            proof {
                                assert(h * 3600 + m * 60 + sec > u64::MAX) by (nonlinear_arith)
                                    requires
                                        m * 60 > u64::MAX,
                                        h >= 0,
                                        sec >= 0,
                                ;
                            }
                            return Err(Error::FormatError);
                        },
                    };
                    let total = match hs.checked_add(ms) {
                        Some(t) => match t.checked_add(sec) {
                            Some(v) => v,
                            None => {
                                return Err(Error::FormatError);
                            },
                        },
                        None => {
                            return Err(Error::FormatError);
                        },
                    };
                    Ok(total)
                },
            }
        },
    }
}

/// Ten to the `k`.
pub open spec fn pow10(k: int) -> int
    decreases k,
{
    if k <= 0 {
        1
    } else {
        10 * pow10(k - 1)
    }
}

/// A digit string's value stays under ten to its length.
proof fn lemma_dec_val_bound(s: Seq<u8>)
    requires
        all_digits(s),
    ensures
        0 <= dec_val(s) < pow10(s.len() as int),
    decreases s.len(),
{
    if s.len() > 0 {
        assert(all_digits(s.drop_last())) by {
            assert(forall|i: int|
                0 <= i < s.len() - 1 ==> #[trigger] s.drop_last()[i] == s[i]);
        }
        lemma_dec_val_bound(s.drop_last());
        let v = dec_val(s.drop_last());
        let p = pow10(s.len() - 1);
        assert(v * 10 + (s.last() - 48) < p * 10) by (nonlinear_arith)
            requires
                0 <= v < p,
                0 <= s.last() - 48 <= 9,
        ;
        assert(v * 10 + (s.last() - 48) >= 0) by (nonlinear_arith)
            requires
                0 <= v,
                0 <= s.last() - 48,
        ;
    }
}

/// The shape a fixed-point argument may take, and its 16.16 value: an
/// optional minus sign, one to thirteen integer digits, and optionally a
/// point with one to six fraction digits (truncated toward zero).
///
/// This is the whole grammar by design: shapes such as a bare point,
/// a trailing point, a leading plus or an exponent are format errors,
/// so that every accepted argument has an exact fixed-point value.
pub open spec fn fx_val(s: Seq<u8>) -> Option<int> {
    let neg = s.len() > 0 && s[0] == 45;
    let body = if neg {
        s.skip(1)
    } else {
        s
    };
    let dot = find_byte_from(body, 46, 0);
    if dot == -1 {
        if 1 <= body.len() <= 13 && all_digits(body) {
            if neg {
                Some(-(dec_val(body) * 65536))
            } else {
                Some(dec_val(body) * 65536)
            }
        } else {
            None
        }
    } else {
        let ip = body.take(dot);
        let fp = body.skip(dot + 1);
        if 1 <= ip.len() <= 13 && all_digits(ip) && 1 <= fp.len() <= 6 && all_digits(fp) {
            let mag = dec_val(ip) * 65536 + (dec_val(fp) * 65536) / pow10(fp.len() as int);
            if neg {
                Some(-mag)
            } else {
                Some(mag)
            }
        } else {
            None
        }
    }
}


/// Ten to any power is at least one.
proof fn lemma_pow10_pos(k: int)
    ensures
        pow10(k) >= 1,
    decreases k,
{
    if k > 0 {
        lemma_pow10_pos(k - 1);
    }
}

/// Ten to the power is monotone in the exponent.
proof fn lemma_pow10_mono(a: int, b: int)
    requires
        a <= b,
    ensures
        pow10(a) <= pow10(b),
    decreases b - a,
{
    if a < b {
        lemma_pow10_mono(a, b - 1);
        lemma_pow10_pos(b - 1);
    }
}

/// Ten to the `k`, executable.
fn pow10_exec(k: usize) -> (r: u64)
    requires
        k <= 6,
    ensures
        r == pow10(k as int),
{
    proof {
        reveal_with_fuel(pow10, 8);
    }
    if k == 0 {
        1
    } else if k == 1 {
        10
    } else if k == 2 {
        100
    } else if k == 3 {
        1000
    } else if k == 4 {
        10000
    } else if k == 5 {
        100000
    } else {
        1000000
    }
}

/// The magnitude part of a fixed-point argument, without the sign.
fn parse_fx_body(body: &[u8]) -> (r: Result<i64, Error>)
    ensures
        ({
            let dot = find_byte_from(body@, 46, 0);
            match r {
                Ok(v) => {
                    &&& v >= 0
                    &&& if dot == -1 {
                        1 <= body@.len() <= 13 && all_digits(body@) && v == dec_val(body@) * 65536
                    } else {
                        let ip = body@.take(dot);
                        let fp = body@.skip(dot + 1);
                        &&& 1 <= ip.len() <= 13
                        &&& all_digits(ip)
                        &&& 1 <= fp.len() <= 6
                        &&& all_digits(fp)
                        &&& v == dec_val(ip) * 65536 + (dec_val(fp) * 65536) / pow10(
                            fp.len() as int,
                        )
                    }
                },
                Err(e) => {
                    &&& e == Error::FormatError
                    &&& if dot == -1 {
                        !(1 <= body@.len() <= 13 && all_digits(body@))
                    } else {
                        let ip = body@.take(dot);
                        let fp = body@.skip(dot + 1);
                        !(1 <= ip.len() <= 13 && all_digits(ip) && 1 <= fp.len() <= 6
                            && all_digits(fp))
                    }
                },
            }
        }),
{
    let n = body.len();
    match find_byte(body, 46) {
        None => {
            if n < 1 || n > 13 {
                return Err(Error::FormatError);
            }
            match parse_u64(body) {
                Ok(v) => {
                    proof {
                        lemma_dec_val_bound(body@);
                        assert(pow10(13) == 10000000000000) by {
                            reveal_with_fuel(pow10, 14);
                        }
                        lemma_pow10_mono(body@.len() as int, 13);
                        assert(dec_val(body@) < 10000000000000);
                    }
                    Ok((v as i64) * 65536)
                },
                Err(e) => {
                    proof {
                        lemma_dec_val_bound_if(body@);
                    }
                    Err(e)
                },
            }
        },
        Some(dot) => {
            let ip = slice_subrange(body, 0, dot);
            let fp = slice_subrange(body, dot + 1, n);
            proof {
                assert(ip@ =~= body@.take(dot as int));
                assert(fp@ =~= body@.skip(dot as int + 1));
            }
            if dot < 1 || dot > 13 {
                return Err(Error::FormatError);
            }
            let fplen = fp.len();
            if fplen < 1 || fplen > 6 {
                return Err(Error::FormatError);
            }
            let iv = match parse_u64(ip) {
                Ok(v) => v,
                Err(e) => {
                    proof {
                        lemma_dec_val_bound_if(ip@);
                    }
                    return Err(e);
                },
            };
            let fv = match parse_u64(fp) {
                Ok(v) => v,
                Err(e) => {
                    proof {
                        lemma_dec_val_bound_if(fp@);
                    }
                    return Err(e);
                },
            };
            proof {
                lemma_dec_val_bound(ip@);
                lemma_dec_val_bound(fp@);
                assert(pow10(13) == 10000000000000) by {
                    reveal_with_fuel(pow10, 14);
                }
                assert(pow10(6) == 1000000) by {
                    reveal_with_fuel(pow10, 14);
                }
                lemma_pow10_mono(ip@.len() as int, 13);
                lemma_pow10_mono(fp@.len() as int, 6);
            }
            let p = pow10_exec(fplen);
            let frac: u64 = (fv * 65536) / p;
            proof {
                assert(frac * p <= fv * 65536) by (nonlinear_arith)
                    requires
                        p > 0,
                        frac == (fv * 65536) as int / (p as int),
                        fv >= 0,
                ;
                assert(frac <= fv * 65536) by (nonlinear_arith)
                    requires
                        p >= 1,
                        frac == (fv * 65536) as int / (p as int),
                        fv >= 0,
                ;
            }
            Ok((iv as i64) * 65536 + (frac as i64))
        },
    }
}

/// When a `u64` parse of an at-most-13-digit string fails, the string is
/// not all digits (it cannot be out of range).
proof fn lemma_dec_val_bound_if(s: Seq<u8>)
    requires
        s.len() <= 13,
        !u64_ok(s),
    ensures
        !(s.len() >= 1 && all_digits(s)),
{
    if s.len() >= 1 && all_digits(s) {
        lemma_dec_val_bound(s);
        assert(pow10(13) == 10000000000000) by {
            reveal_with_fuel(pow10, 14);
        }
        lemma_pow10_mono(s.len() as int, 13);
    }
}

/// Parses a signed 16.16 fixed-point decimal argument.
pub fn parse_fx(s: &[u8]) -> (r: Result<i64, Error>)
    ensures
        match r {
            Ok(v) => fx_val(s@) == Some(v as int),
            Err(e) => e == Error::FormatError && fx_val(s@) is None,
        },
{
    let n = s.len();
    let neg = n > 0 && s[0] == 45;
    let body = if neg {
        slice_subrange(s, 1, n)
    } else {
        slice_subrange(s, 0, n)
    };
    proof {
        if neg {
            assert(body@ =~= s@.skip(1));
        } else {
            assert(body@ =~= s@);
        }
    }
    match parse_fx_body(body) {
        Ok(v) => {
            if neg {
                Ok(-v)
            } else {
                Ok(v)
            }
        },
        Err(e) => Err(e),
    }
}

} // verus!
