//! Numeric parsing of the external tool's fields: unsigned integers,
//! signed integers, and simple decimals read into centi (hundredths)
//! fixed-point values.

use vstd::prelude::*;

verus! {

/// ASCII decimal digit.
pub open spec fn is_ascii_digit(b: u8) -> bool {
    48 <= b <= 57
}

/// Every byte of `s` is an ASCII decimal digit.
pub open spec fn all_digits(s: Seq<u8>) -> bool {
    forall|i: int| 0 <= i < s.len() ==> is_ascii_digit(s[i])
}

/// The value of `s` read as a base-10 numeral, most significant digit
/// first. Meaningful only when `all_digits(s)`.
pub open spec fn digits_val(s: Seq<u8>) -> int
    decreases s.len(),
{
    if s.len() == 0 {
        0
    } else {
        digits_val(s.drop_last()) * 10 + (s.last() - 48)
    }
}

proof fn lemma_digits_val_nonneg(s: Seq<u8>)
    requires
        all_digits(s),
    ensures
        digits_val(s) >= 0,
    decreases s.len(),
{
    if s.len() > 0 {
        let t = s.drop_last();
        assert(forall|i: int| 0 <= i < t.len() ==> is_ascii_digit(#[trigger] t[i]));
        lemma_digits_val_nonneg(t);
    }
}

proof fn lemma_digits_val_step(s: Seq<u8>, i: int)
    requires
        0 <= i < s.len(),
    ensures
        digits_val(s.take(i + 1)) == digits_val(s.take(i)) * 10 + (s[i] - 48),
{
    assert(s.take(i + 1).drop_last() =~= s.take(i));
    assert(s.take(i + 1).last() == s[i]);
}

proof fn lemma_digits_val_mono(s: Seq<u8>, k: int)
    requires
        all_digits(s),
        0 <= k <= s.len(),
    ensures
        digits_val(s) >= digits_val(s.take(k)),
    decreases s.len() - k,
{
    if k < s.len() {
        lemma_digits_val_step(s, k);
        let t = s.take(k);
        assert(forall|i: int| 0 <= i < t.len() ==> is_ascii_digit(#[trigger] t[i]));
        lemma_digits_val_nonneg(t);
        lemma_digits_val_mono(s, k + 1);
    } else {
        assert(s.take(k) =~= s);
    }
}

/// The value of a non-empty all-digit numeral, if it fits in `u64`.
pub open spec fn parse_u64_spec(s: Seq<u8>) -> Option<u64> {
    if s.len() > 0 && all_digits(s) && digits_val(s) <= u64::MAX {
        Some(digits_val(s) as u64)
    } else {
        None
    }
}

/// Parse a non-empty run of ASCII digits as a `u64`; anything else,
/// including a value too large for `u64`, is `None`.
pub fn parse_u64_digits(s: &Vec<u8>) -> (r: Option<u64>)
    ensures
        r == parse_u64_spec(s@),
{
    if s.len() == 0 {
        return None;
    }
    let mut acc: u64 = 0;
    let mut i: usize = 0;
    while i < s.len()
        invariant
            i <= s@.len(),
            s@.len() > 0,
            all_digits(s@.take(i as int)),
            acc == digits_val(s@.take(i as int)),
        decreases s@.len() - i,
    {
        let b = s[i];
        if b < 48 || b > 57 {
            proof {
                assert(!is_ascii_digit(s@[i as int]));
            }
            return None;
        }
        let d: u64 = (b - 48) as u64;
        proof {
            lemma_digits_val_step(s@, i as int);
        }
        let next = match acc.checked_mul(10) {
            Some(m) => m.checked_add(d),
            None => None,
        };
        match next {
            Some(a) => {
                proof {
                    assert forall|k: int| 0 <= k < i + 1 implies is_ascii_digit(
                        #[trigger] s@.take(i + 1)[k],
                    ) by {
                        if k < i {
                            assert(is_ascii_digit(s@.take(i as int)[k]));
                        }
                        assert(s@.take(i + 1)[k] == s@[k]);
                    }
                }
                acc = a;
            },
            None => {
                proof {
                    if all_digits(s@) {
                        lemma_digits_val_mono(s@, i + 1);
                    }
                }
                return None;
            },
        }
        i = i + 1;
    }
    proof {
        assert(s@.take(s@.len() as int) =~= s@);
    }
    Some(acc)
}

/// Whether a numeral carries a leading ASCII minus sign.
pub open spec fn has_minus_sign(s: Seq<u8>) -> bool {
    s.len() > 0 && s[0] == 45
}

/// The numeral with any single leading `+` or `-` removed.
pub open spec fn magnitude_part(s: Seq<u8>) -> Seq<u8> {
    if s.len() > 0 && (s[0] == 43 || s[0] == 45) {
        s.drop_first()
    } else {
        s
    }
}

/// The value of an optionally signed all-digit numeral, if it fits in
/// `i32`.
pub open spec fn parse_i32_spec(s: Seq<u8>) -> Option<i32> {
    let mag = magnitude_part(s);
    if mag.len() > 0 && all_digits(mag) {
        if has_minus_sign(s) {
            if digits_val(mag) <= 0x8000_0000 {
                Some((-digits_val(mag)) as i32)
            } else {
                None
            }
        } else {
            if digits_val(mag) <= i32::MAX {
                Some(digits_val(mag) as i32)
            } else {
                None
            }
        }
    } else {
        None
    }
}

/// Parse an optionally signed run of ASCII digits as an `i32`; anything
/// else, including an out-of-range value, is `None`.
pub fn parse_i32(s: &Vec<u8>) -> (r: Option<i32>)
    ensures
        r == parse_i32_spec(s@),
{
    let mut start: usize = 0;
    let mut neg: bool = false;
    if s.len() > 0 && (s[0] == 43 || s[0] == 45) {
        start = 1;
        neg = s[0] == 45;
    }
    let mut mag: Vec<u8> = Vec::new();
    let mut k: usize = start;
    while k < s.len()
        invariant
            start <= k <= s@.len(),
            mag@ == s@.subrange(start as int, k as int),
        decreases s@.len() - k,
    {
        mag.push(s[k]);
        proof {
            assert(mag@ =~= s@.subrange(start as int, k + 1));
        }
        k = k + 1;
    }
    proof {
        assert(mag@ =~= magnitude_part(s@));
    }
    match parse_u64_digits(&mag) {
        None => None,
        Some(v) => {
            proof {
                lemma_digits_val_nonneg(mag@);
            }
            if neg {
                if v <= 0x8000_0000 {
                    if v == 0x8000_0000 {
                        Some(i32::MIN)
                    } else {
                        Some(-(v as i32))
                    }
                } else {
                    None
                }
            } else {
                if v <= 0x7fff_ffff {
                    Some(v as i32)
                } else {
                    None
                }
            }
        },
    }
}

/// The index of the first ASCII dot in `s`, or `s.len()` if none.
pub open spec fn dot_index(s: Seq<u8>) -> nat
    decreases s.len(),
{
    if s.len() == 0 {
        0
    } else if s[0] == 46 {
        0
    } else {
        1 + dot_index(s.drop_first())
    }
}

proof fn lemma_dot_index_at(s: Seq<u8>, k: int)
    requires
        0 <= k <= s.len(),
        forall|i: int| 0 <= i < k ==> s[i] != 46,
        k == s.len() || s[k] == 46,
    ensures
        dot_index(s) == k,
    decreases k,
{
    if k > 0 {
        let t = s.drop_first();
        assert(forall|i: int| 0 <= i < k - 1 ==> #[trigger] t[i] != 46);
        lemma_dot_index_at(t, k - 1);
    }
}

/// The digits before the first dot.
pub open spec fn whole_part(s: Seq<u8>) -> Seq<u8> {
    s.take(dot_index(s) as int)
}

/// The digits after the first dot, empty when there is no dot.
pub open spec fn frac_part(s: Seq<u8>) -> Seq<u8> {
    if dot_index(s) < s.len() {
        s.skip(dot_index(s) as int + 1)
    } else {
        Seq::empty()
    }
}

/// A numeral of the form `digits`, `digits.digits`, `digits.` or
/// `.digits`: at most one dot, at least one digit, nothing else.
pub open spec fn is_simple_decimal(s: Seq<u8>) -> bool {
    all_digits(whole_part(s)) && all_digits(frac_part(s)) && whole_part(s).len() + frac_part(
        s,
    ).len() > 0
}

/// The first two fractional digits read as hundredths; further digits
/// are truncated.
pub open spec fn frac_centi(f: Seq<u8>) -> int {
    if f.len() == 0 {
        0
    } else if f.len() == 1 {
        (f[0] - 48) * 10
    } else {
        (f[0] - 48) * 10 + (f[1] - 48)
    }
}

/// The value of a simple decimal numeral in centi units (hundredths),
/// rounded toward zero.
pub open spec fn centi_val(s: Seq<u8>) -> int {
    digits_val(whole_part(s)) * 100 + frac_centi(frac_part(s))
}

/// The centi-unit value of a simple decimal numeral, if it fits in `u64`.
pub open spec fn parse_centi_spec(s: Seq<u8>) -> Option<u64> {
    if is_simple_decimal(s) && centi_val(s) <= u64::MAX {
        Some(centi_val(s) as u64)
    } else {
        None
    }
}

/// Parse a simple decimal numeral (`45`, `37.2`, `8192.`, `.5`) into
/// hundredths, rounding extra fractional digits toward zero; anything
/// else, including a value too large for `u64`, is `None`.
pub fn parse_centi(s: &Vec<u8>) -> (r: Option<u64>)
    ensures
        r == parse_centi_spec(s@),
{
    let mut j: usize = 0;
    while j < s.len() && s[j] != 46
        invariant
            j <= s@.len(),
            forall|i: int| 0 <= i < j ==> s@[i] != 46,
        decreases s@.len() - j,
    {
        j = j + 1;
    }
    proof {
        lemma_dot_index_at(s@, j as int);
    }
    let mut whole: Vec<u8> = Vec::new();
    let mut k: usize = 0;
    while k < j
        invariant
            k <= j <= s@.len(),
            whole@ == s@.subrange(0, k as int),
        decreases j - k,
    {
        whole.push(s[k]);
        proof {
            assert(whole@ =~= s@.subrange(0, k + 1));
        }
        k = k + 1;
    }
    proof {
        assert(whole@ =~= whole_part(s@));
    }
    let mut frac: Vec<u8> = Vec::new();
    if j < s.len() {
        let mut k2: usize = j + 1;
        while k2 < s.len()
            invariant
                j + 1 <= k2 <= s@.len(),
                frac@ == s@.subrange(j + 1, k2 as int),
            decreases s@.len() - k2,
        {
            frac.push(s[k2]);
            proof {
                assert(frac@ =~= s@.subrange(j + 1, k2 + 1));
            }
            k2 = k2 + 1;
        }
    }
    proof {
        assert(frac@ =~= frac_part(s@));
    }
    if whole.len() == 0 && frac.len() == 0 {
        return None;
    }
    let mut fi: usize = 0;
    while fi < frac.len()
        invariant
            fi <= frac@.len(),
            frac@ == frac_part(s@),
            all_digits(frac@.take(fi as int)),
        decreases frac@.len() - fi,
    {
        let b = frac[fi];
        if b < 48 || b > 57 {
            proof {
                assert(!is_ascii_digit(frac_part(s@)[fi as int]));
            }
            return None;
        }
        proof {
            assert forall|i: int| 0 <= i < fi + 1 implies is_ascii_digit(
                #[trigger] frac@.take(fi + 1)[i],
            ) by {
                if i < fi {
                    assert(is_ascii_digit(frac@.take(fi as int)[i]));
                }
                assert(frac@.take(fi + 1)[i] == frac@[i]);
            }
        }
        fi = fi + 1;
    }
    proof {
        assert(frac@.take(frac@.len() as int) =~= frac@);
    }
    let fc: u64 = if frac.len() == 0 {
        0
    } else if frac.len() == 1 {
        ((frac[0] - 48) as u64) * 10
    } else {
        ((frac[0] - 48) as u64) * 10 + ((frac[1] - 48) as u64)
    };
    proof {
        assert(fc == frac_centi(frac@));
    }
    proof {
        if frac@.len() > 0 {
            assert(is_ascii_digit(frac_part(s@)[0]));
        }
        if frac@.len() > 1 {
            assert(is_ascii_digit(frac_part(s@)[1]));
        }
        assert(0 <= frac_centi(frac_part(s@)) <= 99);
    }
    let whole_val: u64 = if whole.len() == 0 {
        0
    } else {
        match parse_u64_digits(&whole) {
            Some(v) => {
                proof {
                    lemma_digits_val_nonneg(whole@);
                }
                v
            },
            None => {
                proof {
                    if all_digits(whole@) {
                        lemma_digits_val_nonneg(whole@);
                    }
                }
                return None;
            },
        }
    };
    let scaled = match whole_val.checked_mul(100) {
        Some(m) => m.checked_add(fc),
        None => None,
    };
    match scaled {
        Some(total) => Some(total),
        None => {
            proof {
                lemma_digits_val_nonneg(whole@);
            }
            None
        },
    }
}

} // verus!
