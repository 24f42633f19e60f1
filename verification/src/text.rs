//! Byte-level text helpers for the external tool's output and for sensor
//! labels: ASCII whitespace trimming, comma splitting, ASCII lowercasing,
//! and substring search.

use vstd::prelude::*;

verus! {

/// ASCII whitespace: space, tab, line feed, form feed, carriage return.
pub open spec fn is_ascii_space(b: u8) -> bool {
    b == 32 || b == 9 || b == 10 || b == 12 || b == 13
}

/// `s` with its leading ASCII whitespace removed.
pub open spec fn trim_front_spec(s: Seq<u8>) -> Seq<u8>
    decreases s.len(),
{
    if s.len() > 0 && is_ascii_space(s[0]) {
        trim_front_spec(s.drop_first())
    } else {
        s
    }
}

/// `s` with its trailing ASCII whitespace removed.
pub open spec fn trim_back_spec(s: Seq<u8>) -> Seq<u8>
    decreases s.len(),
{
    if s.len() > 0 && is_ascii_space(s.last()) {
        trim_back_spec(s.drop_last())
    } else {
        s
    }
}

/// `s` with leading and trailing ASCII whitespace removed.
pub open spec fn trim_spec(s: Seq<u8>) -> Seq<u8> {
    trim_back_spec(trim_front_spec(s))
}

proof fn lemma_trim_front_at(s: Seq<u8>, k: int)
    requires
        0 <= k <= s.len(),
        forall|i: int| 0 <= i < k ==> is_ascii_space(s[i]),
        k == s.len() || !is_ascii_space(s[k]),
    ensures
        trim_front_spec(s) == s.skip(k),
    decreases k,
{
    if k == 0 {
        assert(s.skip(0) =~= s);
    } else {
        let t = s.drop_first();
        assert(forall|i: int| 0 <= i < k - 1 ==> is_ascii_space(#[trigger] t[i]));
        lemma_trim_front_at(t, k - 1);
        assert(t.skip(k - 1) =~= s.skip(k));
    }
}

proof fn lemma_trim_back_at(s: Seq<u8>, k: int)
    requires
        0 <= k <= s.len(),
        forall|i: int| k <= i < s.len() ==> is_ascii_space(s[i]),
        k == 0 || !is_ascii_space(s[k - 1]),
    ensures
        trim_back_spec(s) == s.take(k),
    decreases s.len() - k,
{
    if k == s.len() {
        if s.len() > 0 && is_ascii_space(s.last()) {
            let t = s.drop_last();
            lemma_trim_back_at(t, k - 1);
        }
        assert(s.take(k) =~= if s.len() > 0 && is_ascii_space(s.last()) {
            trim_back_spec(s)
        } else {
            s
        });
    } else {
        let t = s.drop_last();
        assert(forall|i: int| k <= i < t.len() ==> is_ascii_space(#[trigger] t[i]));
        lemma_trim_back_at(t, k);
        assert(t.take(k) =~= s.take(k));
    }
}

/// A copy of `s` with leading and trailing ASCII whitespace removed.
pub fn trim(s: &Vec<u8>) -> (r: Vec<u8>)
    ensures
        r@ == trim_spec(s@),
{
    let mut lo: usize = 0;
    while lo < s.len() && is_space_byte(s[lo])
        invariant
            lo <= s@.len(),
            forall|i: int| 0 <= i < lo ==> is_ascii_space(s@[i]),
        decreases s@.len() - lo,
    {
        lo = lo + 1;
    }
    let mut hi: usize = s.len();
    while hi > lo && is_space_byte(s[hi - 1])
        invariant
            lo <= hi <= s@.len(),
            forall|i: int| 0 <= i < lo ==> is_ascii_space(s@[i]),
            forall|i: int| hi <= i < s@.len() ==> is_ascii_space(s@[i]),
        decreases hi,
    {
        hi = hi - 1;
    }
    let mut out: Vec<u8> = Vec::new();
    let mut k: usize = lo;
    while k < hi
        invariant
            lo <= k <= hi <= s@.len(),
            out@ == s@.subrange(lo as int, k as int),
        decreases hi - k,
    {
        out.push(s[k]);
        proof {
            assert(out@ =~= s@.subrange(lo as int, k + 1));
        }
        k = k + 1;
    }
    proof {
        lemma_trim_front_at(s@, lo as int);
        let t = s@.skip(lo as int);
        assert(forall|j: int| hi - lo <= j < t.len() ==> is_ascii_space(#[trigger] t[j]));
        lemma_trim_back_at(t, hi - lo);
        assert(t.take(hi - lo) =~= s@.subrange(lo as int, hi as int));
    }
    out
}

/// Whether `b` is ASCII whitespace.
pub fn is_space_byte(b: u8) -> (r: bool)
    ensures
        r == is_ascii_space(b),
{
    b == 32 || b == 9 || b == 10 || b == 12 || b == 13
}

/// The index of the first comma in `s`, or `s.len()` if there is none.
pub open spec fn comma_index(s: Seq<u8>) -> nat
    decreases s.len(),
{
    if s.len() == 0 {
        0
    } else if s[0] == 44 {
        0
    } else {
        1 + comma_index(s.drop_first())
    }
}

proof fn lemma_comma_index_bounds(s: Seq<u8>)
    ensures
        comma_index(s) <= s.len(),
        forall|i: int| 0 <= i < comma_index(s) ==> s[i] != 44,
        comma_index(s) < s.len() ==> s[comma_index(s) as int] == 44,
    decreases s.len(),
{
    if s.len() > 0 && s[0] != 44 {
        lemma_comma_index_bounds(s.drop_first());
        assert forall|i: int| 0 <= i < comma_index(s) implies s[i] != 44 by {
            if i > 0 {
                assert(s.drop_first()[i - 1] == s[i]);
            }
        }
    }
}

proof fn lemma_comma_index_at(s: Seq<u8>, k: int)
    requires
        0 <= k <= s.len(),
        forall|i: int| 0 <= i < k ==> s[i] != 44,
        k == s.len() || s[k] == 44,
    ensures
        comma_index(s) == k,
    decreases k,
{
    if k > 0 {
        let t = s.drop_first();
        assert(forall|i: int| 0 <= i < k - 1 ==> #[trigger] t[i] != 44);
        lemma_comma_index_at(t, k - 1);
    }
}

/// `s` split on commas (byte 44), in order. A string with no comma is a
/// single field; every comma separates two fields, so `n` commas yield
/// `n + 1` fields, some possibly empty.
pub open spec fn split_commas(s: Seq<u8>) -> Seq<Seq<u8>>
    decreases s.len(),
    via split_commas_decreases
{
    if comma_index(s) == s.len() {
        seq![s]
    } else {
        seq![s.take(comma_index(s) as int)] + split_commas(
            s.skip(comma_index(s) as int + 1),
        )
    }
}

#[via_fn]
proof fn split_commas_decreases(s: Seq<u8>) {
    lemma_comma_index_bounds(s);
}

/// Split `s` on commas, copying each field out in order.
pub fn split_on_commas(s: &Vec<u8>) -> (r: Vec<Vec<u8>>)
    ensures
        r.deep_view() == split_commas(s@),
{
    let mut r: Vec<Vec<u8>> = Vec::new();
    let mut start: usize = 0;
    proof {
        assert(s@.skip(0) =~= s@);
        assert(r.deep_view() =~= Seq::<Seq<u8>>::empty());
        assert(r.deep_view() + split_commas(s@) =~= split_commas(s@));
    }
    loop
        invariant_except_break
            start <= s@.len(),
            split_commas(s@) == r.deep_view() + split_commas(s@.skip(start as int)),
        ensures
            r.deep_view() == split_commas(s@),
        decreases s@.len() - start,
    {
        let ghost prev_r = r.deep_view();
        let ghost rest = s@.skip(start as int);
        let mut j: usize = start;
        while j < s.len() && s[j] != 44
            invariant
                start <= j <= s@.len(),
                forall|i: int| start <= i < j ==> s@[i] != 44,
            decreases s@.len() - j,
        {
            j = j + 1;
        }
        proof {
            let t = rest;
            assert(forall|i: int| 0 <= i < j - start ==> #[trigger] t[i] != 44);
            lemma_comma_index_at(t, j - start);
        }
        let mut field: Vec<u8> = Vec::new();
        let mut k: usize = start;
        while k < j
            invariant
                start <= k <= j <= s@.len(),
                field@ == s@.subrange(start as int, k as int),
            decreases j - k,
        {
            field.push(s[k]);
            proof {
                assert(field@ =~= s@.subrange(start as int, k + 1));
            }
            k = k + 1;
        }
        let ghost fv = field@;
        r.push(field);
        proof {
            assert(r.deep_view() =~~= prev_r.push(fv));
            assert(fv =~= rest.take(j - start));
        }
        if j == s.len() {
            proof {
                assert(comma_index(rest) == rest.len());
                assert(split_commas(rest) =~~= seq![rest]);
                assert(rest =~= fv);
                assert(r.deep_view() =~~= split_commas(s@));
            }
            break;
        }
        proof {
            assert(split_commas(rest) =~~= seq![rest.take(j - start)] + split_commas(
                rest.skip(j - start + 1),
            ));
            assert(rest.skip(j - start + 1) =~= s@.skip(j + 1));
            assert(r.deep_view() + split_commas(s@.skip(j + 1)) =~~= split_commas(s@));
        }
        start = j + 1;
    }
    r
}

/// `b` with an ASCII capital letter folded to its lower-case form.
pub open spec fn ascii_lower_byte(b: u8) -> u8 {
    if 65 <= b <= 90 {
        (b + 32) as u8
    } else {
        b
    }
}

/// `s` with every ASCII capital letter folded to lower case.
pub open spec fn ascii_lower(s: Seq<u8>) -> Seq<u8> {
    s.map_values(|b: u8| ascii_lower_byte(b))
}

/// A copy of `s` folded to ASCII lower case.
pub fn to_ascii_lower(s: &Vec<u8>) -> (r: Vec<u8>)
    ensures
        r@ == ascii_lower(s@),
{
    let mut out: Vec<u8> = Vec::new();
    let mut i: usize = 0;
    while i < s.len()
        invariant
            i <= s@.len(),
            out@.len() == i,
            forall|k: int| 0 <= k < i ==> out@[k] == ascii_lower_byte(s@[k]),
        decreases s@.len() - i,
    {
        let b = s[i];
        if 65 <= b && b <= 90 {
            out.push(b + 32);
        } else {
            out.push(b);
        }
        i = i + 1;
    }
    proof {
        assert(out@ =~= ascii_lower(s@));
    }
    out
}

/// Whether `needle` occurs contiguously inside `haystack` at offset `i`.
pub open spec fn matches_at(haystack: Seq<u8>, needle: Seq<u8>, i: int) -> bool {
    0 <= i && i + needle.len() <= haystack.len() && haystack.subrange(i, i + needle.len())
        == needle
}

/// Whether `needle` occurs contiguously anywhere inside `haystack`.
pub open spec fn contains_seq(haystack: Seq<u8>, needle: Seq<u8>) -> bool {
    exists|i: int| matches_at(haystack, needle, i)
}

fn matches_at_index(haystack: &Vec<u8>, needle: &Vec<u8>, i: usize) -> (r: bool)
    requires
        i + needle@.len() <= haystack@.len(),
    ensures
        r == matches_at(haystack@, needle@, i as int),
{
    let hlen = haystack.len();
    let mut j: usize = 0;
    while j < needle.len()
        invariant
            j <= needle@.len(),
            i + needle@.len() <= haystack@.len(),
            haystack@.len() == hlen,
            forall|k: int| 0 <= k < j ==> haystack@[i + k] == needle@[k],
        decreases needle@.len() - j,
    {
        if haystack[i + j] != needle[j] {
            proof {
                assert(haystack@.subrange(i as int, i + needle@.len())[j as int] == haystack@[i
                    + j]);
            }
            return false;
        }
        j = j + 1;
    }
    proof {
        assert(haystack@.subrange(i as int, i + needle@.len()) =~= needle@);
    }
    true
}

/// Whether `needle` occurs contiguously anywhere inside `haystack`.
pub fn contains_subslice(haystack: &Vec<u8>, needle: &Vec<u8>) -> (r: bool)
    ensures
        r == contains_seq(haystack@, needle@),
{
    if needle.len() > haystack.len() {
        return false;
    }
    if needle.len() == 0 {
        proof {
            assert(haystack@.subrange(0, 0) =~= needle@);
            assert(matches_at(haystack@, needle@, 0));
        }
        return true;
    }
    let bound = haystack.len() - needle.len();
    let mut i: usize = 0;
    while i <= bound
        invariant
            needle@.len() >= 1,
            bound == haystack@.len() - needle@.len(),
            bound < haystack@.len() <= usize::MAX,
            i <= bound + 1,
            forall|k: int| 0 <= k < i ==> !matches_at(haystack@, needle@, k),
        decreases bound + 1 - i,
    {
        if matches_at_index(haystack, needle, i) {
            return true;
        }
        i = i + 1;
    }
    proof {
        assert(forall|k: int| #[trigger]
            matches_at(haystack@, needle@, k) ==> 0 <= k < i);
    }
    false
}

} // verus!
