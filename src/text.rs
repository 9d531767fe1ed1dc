//! Scanning of lines and whitespace-separated words in raw bytes.
use vstd::prelude::*;

verus! {

/// ASCII whitespace: space, tab, line feed, vertical tab, form feed, carriage return.
pub open spec fn is_space(b: u8) -> bool {
    b == 32 || (9 <= b && b <= 13)
}

/// Index of the first line feed at or after `i`, or the length when there is none.
pub open spec fn line_end(s: Seq<u8>, i: int) -> int
    decreases s.len() - i,
{
    if i >= s.len() {
        s.len() as int
    } else if s[i] == 10 {
        i
    } else {
        line_end(s, i + 1)
    }
}

/// Where the line after the one that holds `i` starts.
pub open spec fn next_line(s: Seq<u8>, i: int) -> int {
    if line_end(s, i) < s.len() {
        line_end(s, i) + 1
    } else {
        s.len() as int
    }
}

/// First index in `[i, end)` that is not whitespace, or `end`.
pub open spec fn skip_spaces(s: Seq<u8>, i: int, end: int) -> int
    decreases end - i,
{
    if i >= end {
        end
    } else if is_space(s[i]) {
        skip_spaces(s, i + 1, end)
    } else {
        i
    }
}

/// First index in `[i, end)` that is whitespace, or `end`.
pub open spec fn skip_word(s: Seq<u8>, i: int, end: int) -> int
    decreases end - i,
{
    if i >= end {
        end
    } else if !is_space(s[i]) {
        skip_word(s, i + 1, end)
    } else {
        i
    }
}

pub proof fn lemma_skip_spaces_bounds(s: Seq<u8>, i: int, end: int)
    requires
        i <= end,
    ensures
        i <= skip_spaces(s, i, end) <= end,
    decreases end - i,
{
    if i < end && is_space(s[i]) {
        lemma_skip_spaces_bounds(s, i + 1, end);
    }
}

pub proof fn lemma_skip_word_bounds(s: Seq<u8>, i: int, end: int)
    requires
        i <= end,
    ensures
        i <= skip_word(s, i, end) <= end,
    decreases end - i,
{
    if i < end && !is_space(s[i]) {
        lemma_skip_word_bounds(s, i + 1, end);
    }
}

/// The words of `s` in `[i, end)`, as half-open ranges, left to right.
pub open spec fn words_from(s: Seq<u8>, i: int, end: int) -> Seq<(int, int)>
    decreases end - i,
    via words_from_decreases
{
    let a = skip_spaces(s, i, end);
    if i >= end || a >= end {
        Seq::empty()
    } else {
        let b = skip_word(s, a, end);
        seq![(a, b)] + words_from(s, b, end)
    }
}

#[via_fn]
proof fn words_from_decreases(s: Seq<u8>, i: int, end: int) {
    if i < end {
        lemma_skip_spaces_bounds(s, i, end);
        lemma_skip_spaces_stops(s, i, end);
        let a = skip_spaces(s, i, end);
        if a < end {
            lemma_skip_word_bounds(s, a + 1, end);
        }
    }
}

pub proof fn lemma_skip_spaces_stops(s: Seq<u8>, i: int, end: int)
    requires
        i <= end,
    ensures
        skip_spaces(s, i, end) < end ==> !is_space(s[skip_spaces(s, i, end)]),
    decreases end - i,
{
    if i < end && is_space(s[i]) {
        lemma_skip_spaces_stops(s, i + 1, end);
    }
}

pub open spec fn is_digit(b: u8) -> bool {
    48 <= b && b <= 57
}

/// The number that a run of decimal digits writes.
pub open spec fn digits_value(s: Seq<u8>) -> nat
    decreases s.len(),
{
    if s.len() == 0 {
        0
    } else {
        digits_value(s.drop_last()) * 10 + (s.last() - 48) as nat
    }
}

pub open spec fn all_digits(s: Seq<u8>) -> bool {
    forall|k: int| 0 <= k < s.len() ==> is_digit(#[trigger] s[k])
}

/// ASCII lower case of a byte.
pub open spec fn to_lower(b: u8) -> u8 {
    if 65 <= b && b <= 90 {
        (b + 32) as u8
    } else {
        b
    }
}

/// `s` equals `t` when ASCII letters are compared without regard to case.
pub open spec fn eq_ignore_case(s: Seq<u8>, t: Seq<u8>) -> bool {
    s.len() == t.len() && forall|k: int| 0 <= k < s.len() ==> to_lower(#[trigger] s[k]) == to_lower(t[k])
}

proof fn lemma_digits_value_prefix(s: Seq<u8>, i: int)
    requires
        0 <= i <= s.len(),
        all_digits(s),
    ensures
        digits_value(s.take(i)) <= digits_value(s),
    decreases s.len() - i,
{
    if i < s.len() {
        lemma_digits_value_prefix(s, i + 1);
        assert(s.take(i + 1).drop_last() =~= s.take(i));
        let x = digits_value(s.take(i));
        assert(x * 10 >= x) by (nonlinear_arith);
    } else {
        assert(s.take(i) =~= s);
    }
}

pub fn is_space_byte(b: u8) -> (r: bool)
    ensures
        r == is_space(b),
{
    b == 32 || (9 <= b && b <= 13)
}

/// Finds the end of the line that holds `i`.
pub fn find_line_end(s: &[u8], i: usize) -> (r: usize)
    requires
        i <= s@.len(),
    ensures
        r == line_end(s@, i as int),
        i <= r <= s@.len(),
{
    let mut j: usize = i;
    while j < s.len() && s[j] != 10
        invariant
            i <= j <= s@.len(),
            line_end(s@, j as int) == line_end(s@, i as int),
        decreases s@.len() - j,
    {
        j = j + 1;
    }
    j
}

/// Finds where the next line starts.
pub fn find_next_line(s: &[u8], i: usize) -> (r: usize)
    requires
        i <= s@.len(),
    ensures
        r == next_line(s@, i as int),
        i <= r <= s@.len(),
{
    let e = find_line_end(s, i);
    if e < s.len() {
        e + 1
    } else {
        e
    }
}

/// Skips whitespace in `[i, end)`.
pub fn find_non_space(s: &[u8], i: usize, end: usize) -> (r: usize)
    requires
        i <= end <= s@.len(),
    ensures
        r == skip_spaces(s@, i as int, end as int),
        i <= r <= end,
{
    let mut j: usize = i;
    while j < end && is_space_byte(s[j])
        invariant
            i <= j <= end <= s@.len(),
            skip_spaces(s@, j as int, end as int) == skip_spaces(s@, i as int, end as int),
        decreases end - j,
    {
        j = j + 1;
    }
    j
}

/// Skips a word in `[i, end)`.
pub fn find_space(s: &[u8], i: usize, end: usize) -> (r: usize)
    requires
        i <= end <= s@.len(),
    ensures
        r == skip_word(s@, i as int, end as int),
        i <= r <= end,
{
    let mut j: usize = i;
    while j < end && !is_space_byte(s[j])
        invariant
            i <= j <= end <= s@.len(),
            skip_word(s@, j as int, end as int) == skip_word(s@, i as int, end as int),
        decreases end - j,
    {
        j = j + 1;
    }
    j
}

/// The words of `s` in `[lo, hi)`, as half-open ranges, left to right.
pub fn split_words(s: &[u8], lo: usize, hi: usize) -> (r: Vec<(usize, usize)>)
    requires
        lo <= hi <= s@.len(),
    ensures
        r@.len() == words_from(s@, lo as int, hi as int).len(),
        forall|k: int|
            0 <= k < r@.len() ==> (#[trigger] r@[k]).0 == words_from(s@, lo as int, hi as int)[k].0
                && r@[k].1 == words_from(s@, lo as int, hi as int)[k].1,
{
    let mut r: Vec<(usize, usize)> = Vec::new();
    let mut j: usize = lo;
    let ghost total = words_from(s@, lo as int, hi as int);
    while j < hi
        invariant
            lo <= j <= hi <= s@.len(),
            total == words_from(s@, lo as int, hi as int),
            total.len() == r@.len() + words_from(s@, j as int, hi as int).len(),
            forall|k: int| 0 <= k < r@.len() ==> (#[trigger] r@[k]).0 == total[k].0 && r@[k].1 == total[k].1,
            forall|k: int| 0 <= k < words_from(s@, j as int, hi as int).len()
                ==> #[trigger] total[r@.len() + k] == words_from(s@, j as int, hi as int)[k],
        decreases hi - j,
    {
        let a = find_non_space(s, j, hi);
        if a >= hi {
            j = hi;
        } else {
            let b = find_space(s, a, hi);
            proof {
                lemma_skip_word_bounds(s@, a + 1, hi as int);
                let rest = words_from(s@, b as int, hi as int);
                assert(words_from(s@, j as int, hi as int) == seq![(a as int, b as int)] + rest);
                assert(words_from(s@, j as int, hi as int)[0] == (a as int, b as int));
                assert(total[r@.len() + 0int] == words_from(s@, j as int, hi as int)[0]);
                assert forall|k: int| 0 <= k < rest.len() implies #[trigger] total[r@.len() + 1 + k] == rest[k] by {
                    assert(total[r@.len() + (k + 1)] == words_from(s@, j as int, hi as int)[k + 1]);
                }
            }
            r.push((a, b));
            j = b;
        }
    }
    proof {
        assert(words_from(s@, j as int, hi as int).len() == 0);
    }
    r
}

/// Reads the decimal number written in `s[lo..hi]`; `None` unless the range is a
/// non-empty run of digits whose value fits in `usize`.
pub fn parse_decimal(s: &[u8], lo: usize, hi: usize) -> (r: Option<usize>)
    requires
        lo <= hi <= s@.len(),
    ensures
        r.is_some() <==> (lo < hi && all_digits(s@.subrange(lo as int, hi as int))
            && digits_value(s@.subrange(lo as int, hi as int)) <= usize::MAX),
        r.is_some() ==> r.unwrap() == digits_value(s@.subrange(lo as int, hi as int)),
{
    if lo == hi {
        return None;
    }
    let ghost w = s@.subrange(lo as int, hi as int);
    let mut v: usize = 0;
    let mut j: usize = lo;
    while j < hi
        invariant
            lo <= j <= hi <= s@.len(),
            w == s@.subrange(lo as int, hi as int),
            all_digits(w.take(j - lo)),
            v == digits_value(w.take(j - lo)),
        decreases hi - j,
    {
        let b = s[j];
        assert(w.take(j - lo + 1).drop_last() =~= w.take(j - lo));
        if b < 48 || b > 57 {
            proof {
                assert(!is_digit(w[j - lo]));
            }
            return None;
        }
        let d = (b - 48) as usize;
        let next = match v.checked_mul(10) {
            Some(m) => m.checked_add(d),
            None => None,
        };
        match next {
            Some(n) => {
                v = n;
            },
            None => {
                proof {
                    assert(all_digits(w.take(j - lo + 1)));
                    if all_digits(w) {
                        lemma_digits_value_prefix(w, j - lo + 1);
                    }
                }
                return None;
            },
        }
        j = j + 1;
    }
    assert(w.take(hi - lo) =~= w);
    Some(v)
}

pub fn lower_byte(b: u8) -> (r: u8)
    ensures
        r == to_lower(b),
{
    if 65 <= b && b <= 90 {
        b + 32
    } else {
        b
    }
}

/// Compares `s[lo..hi]` with `t` without regard to the case of ASCII letters.
pub fn range_eq_ignore_case(s: &[u8], lo: usize, hi: usize, t: &[u8]) -> (r: bool)
    requires
        lo <= hi <= s@.len(),
    ensures
        r == eq_ignore_case(s@.subrange(lo as int, hi as int), t@),
{
    if hi - lo != t.len() {
        return false;
    }
    let mut k: usize = 0;
    while k < t.len()
        invariant
            lo <= hi <= s@.len(),
            hi - lo == t@.len(),
            k <= t@.len(),
            forall|m: int| 0 <= m < k ==> to_lower(s@[lo + m]) == to_lower(t@[m]),
        decreases t@.len() - k,
    {
        if lower_byte(s[lo + k]) != lower_byte(t[k]) {
            assert(s@.subrange(lo as int, hi as int)[k as int] == s@[lo + k]);
            return false;
        }
        k = k + 1;
    }
    true
}

} // verus!
