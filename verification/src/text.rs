use vstd::prelude::*;

use crate::decimal::is_ascii_digit;

verus! {

/// `needle` occurs in `hay` starting at byte `i`.
pub open spec fn occurs_at(hay: Seq<u8>, needle: Seq<u8>, i: int) -> bool {
    0 <= i && i + needle.len() <= hay.len() && hay.subrange(i, i + needle.len()) == needle
}

/// The first position at or after `k` where `needle` occurs in `hay`.
pub open spec fn first_occurrence_from(hay: Seq<u8>, needle: Seq<u8>, k: int) -> Option<int>
    decreases hay.len() + 1 - k,
{
    if k < 0 || k + needle.len() > hay.len() {
        None
    } else if occurs_at(hay, needle, k) {
        Some(k)
    } else {
        first_occurrence_from(hay, needle, k + 1)
    }
}

/// The first position where `needle` occurs in `hay`, as `str::find` reports it.
pub open spec fn first_occurrence(hay: Seq<u8>, needle: Seq<u8>) -> Option<int> {
    first_occurrence_from(hay, needle, 0)
}

/// The position of the first byte at or after `k` that equals `sep`, or the
/// length of `s` when there is none.
pub open spec fn index_of_from(s: Seq<u8>, sep: u8, k: int) -> int
    decreases s.len() - k,
{
    if k < 0 {
        s.len() as int
    } else if k >= s.len() {
        s.len() as int
    } else if s[k] == sep {
        k
    } else {
        index_of_from(s, sep, k + 1)
    }
}

/// The end of the run of ASCII digits that starts at `k`.
pub open spec fn digit_run_end(s: Seq<u8>, k: int) -> int
    decreases s.len() - k,
{
    if k < 0 || k >= s.len() || !is_ascii_digit(s[k]) {
        k
    } else {
        digit_run_end(s, k + 1)
    }
}

/// A byte that may belong to a decimal number with sign and fraction: a digit,
/// `.` or `-`.
pub open spec fn is_number_byte(b: u8) -> bool {
    is_ascii_digit(b) || b == 46u8 || b == 45u8
}

/// The end of the run of number bytes that starts at `k`.
pub open spec fn number_run_end(s: Seq<u8>, k: int) -> int
    decreases s.len() - k,
{
    if k < 0 || k >= s.len() || !is_number_byte(s[k]) {
        k
    } else {
        number_run_end(s, k + 1)
    }
}

/// The ASCII lower-case form of a byte; other bytes are unchanged.
pub open spec fn ascii_lower(b: u8) -> u8 {
    if 65 <= b <= 90 {
        (b + 32) as u8
    } else {
        b
    }
}

/// `a` and `b` are equal up to ASCII case, as `eq_ignore_ascii_case` decides.
pub open spec fn eq_ignore_ascii_case(a: Seq<u8>, b: Seq<u8>) -> bool {
    a.len() == b.len() && forall|i: int| 0 <= i < a.len() ==> ascii_lower(#[trigger] a[i]) == ascii_lower(b[i])
}

/// The pieces of `s` between occurrences of `sep`, as `str::split` yields them.
pub open spec fn split_on(s: Seq<u8>, sep: u8) -> Seq<Seq<u8>>
    decreases s.len(),
{
    let j = index_of_from(s, sep, 0);
    if 0 <= j < s.len() {
        seq![s.take(j)] + split_on(s.skip(j + 1), sep)
    } else {
        seq![s]
    }
}

/// The first occurrence is an occurrence, and no earlier position is one.
pub proof fn lemma_first_occurrence_from(hay: Seq<u8>, needle: Seq<u8>, k: int)
    requires
        0 <= k,
    ensures
        match first_occurrence_from(hay, needle, k) {
            Some(i) => k <= i && occurs_at(hay, needle, i) && forall|j: int|
                k <= j < i ==> !#[trigger] occurs_at(hay, needle, j),
            None => forall|j: int| k <= j ==> !#[trigger] occurs_at(hay, needle, j),
        },
    decreases hay.len() + 1 - k,
{
    if k + needle.len() <= hay.len() && !occurs_at(hay, needle, k) {
        lemma_first_occurrence_from(hay, needle, k + 1);
    }
}

pub proof fn lemma_index_of_from_bounds(s: Seq<u8>, sep: u8, k: int)
    requires
        0 <= k <= s.len(),
    ensures
        k <= index_of_from(s, sep, k) <= s.len(),
        index_of_from(s, sep, k) < s.len() ==> s[index_of_from(s, sep, k)] == sep,
        forall|i: int| k <= i < index_of_from(s, sep, k) ==> s[i] != sep,
    decreases s.len() - k,
{
    if k < s.len() && s[k] != sep {
        lemma_index_of_from_bounds(s, sep, k + 1);
    }
}

/// The search from `j` stops at the first `sep` at or after `j`.
pub proof fn lemma_index_of_from_at(s: Seq<u8>, sep: u8, j: int, p: int)
    requires
        0 <= j <= p < s.len(),
        s[p] == sep,
        forall|i: int| j <= i < p ==> s[i] != sep,
    ensures
        index_of_from(s, sep, j) == p,
    decreases p - j,
{
    if j < p {
        lemma_index_of_from_at(s, sep, j + 1, p);
    }
}

/// With no `sep` at or after `j`, the search reaches the end.
pub proof fn lemma_index_of_from_absent(s: Seq<u8>, sep: u8, j: int)
    requires
        0 <= j <= s.len(),
        forall|i: int| j <= i < s.len() ==> s[i] != sep,
    ensures
        index_of_from(s, sep, j) == s.len(),
    decreases s.len() - j,
{
    if j < s.len() {
        lemma_index_of_from_absent(s, sep, j + 1);
    }
}

/// Searching a suffix finds the same separator as searching the whole sequence
/// from where the suffix starts.
pub proof fn lemma_index_of_from_skip(s: Seq<u8>, sep: u8, p: int, k: int)
    requires
        0 <= p <= s.len(),
        0 <= k <= s.len() - p,
    ensures
        index_of_from(s.skip(p), sep, k) + p == index_of_from(s, sep, p + k),
    decreases s.len() - p - k,
{
    if k < s.len() - p && s[p + k] != sep {
        lemma_index_of_from_skip(s, sep, p, k + 1);
    }
}

pub proof fn lemma_digit_run_end_bounds(s: Seq<u8>, k: int)
    requires
        0 <= k <= s.len(),
    ensures
        k <= digit_run_end(s, k) <= s.len(),
        forall|i: int| k <= i < digit_run_end(s, k) ==> is_ascii_digit(#[trigger] s[i]),
        digit_run_end(s, k) < s.len() ==> !is_ascii_digit(s[digit_run_end(s, k)]),
    decreases s.len() - k,
{
    if k < s.len() && is_ascii_digit(s[k]) {
        lemma_digit_run_end_bounds(s, k + 1);
    }
}

pub proof fn lemma_number_run_end_bounds(s: Seq<u8>, k: int)
    requires
        0 <= k <= s.len(),
    ensures
        k <= number_run_end(s, k) <= s.len(),
    decreases s.len() - k,
{
    if k < s.len() && is_number_byte(s[k]) {
        lemma_number_run_end_bounds(s, k + 1);
    }
}

/// Whether `needle` occurs in `hay` at byte `k`.
pub fn matches_at(hay: &[u8], needle: &[u8], k: usize) -> (b: bool)
    ensures
        b == occurs_at(hay@, needle@, k as int),
{
    if k > hay.len() || needle.len() > hay.len() - k {
        return false;
    }
    let mut i: usize = 0;
    while i < needle.len()
        invariant
            k + needle.len() <= hay.len(),
            i <= needle.len(),
            forall|j: int| 0 <= j < i ==> hay@[k + j] == needle@[j],
        decreases needle.len() - i,
    {
        if hay[k + i] != needle[i] {
            assert(hay@.subrange(k as int, k + needle.len())[i as int] != needle@[i as int]);
            return false;
        }
        i = i + 1;
    }
    assert(hay@.subrange(k as int, k + needle.len()) =~= needle@);
    true
}

/// The byte position of the first occurrence of `needle` in `hay`, as
/// `str::find` reports it.
pub fn find_bytes(hay: &[u8], needle: &[u8]) -> (r: Option<usize>)
    ensures
        first_occurrence(hay@, needle@) == match r {
            Some(i) => Some(i as int),
            None => None::<int>,
        },
        r matches Some(i) ==> occurs_at(hay@, needle@, i as int) && i + needle.len() <= hay.len(),
{
    proof {
        lemma_first_occurrence_from(hay@, needle@, 0);
    }
    if needle.len() > hay.len() {
        return None;
    }
    let last = hay.len() - needle.len();
    let mut k: usize = 0;
    loop
        invariant
            last == hay.len() - needle.len(),
            k <= last,
            first_occurrence_from(hay@, needle@, 0) == first_occurrence_from(hay@, needle@, k as int),
        decreases last - k,
    {
        if matches_at(hay, needle, k) {
            return Some(k);
        }
        if k == last {
            assert(first_occurrence_from(hay@, needle@, k + 1) is None);
            return None;
        }
        k = k + 1;
    }
}

/// The position of the first `sep` at or after `start`, or the length of `s`.
pub fn index_of(s: &[u8], sep: u8, start: usize) -> (r: usize)
    requires
        start <= s.len(),
    ensures
        r == index_of_from(s@, sep, start as int),
{
    let mut k = start;
    while k < s.len()
        invariant
            start <= k <= s.len(),
            index_of_from(s@, sep, start as int) == index_of_from(s@, sep, k as int),
        decreases s.len() - k,
    {
        if s[k] == sep {
            return k;
        }
        k = k + 1;
    }
    k
}

/// The end of the run of ASCII digits in `s` that starts at `start`.
pub fn digit_run(s: &[u8], start: usize) -> (r: usize)
    requires
        start <= s.len(),
    ensures
        r == digit_run_end(s@, start as int),
{
    let mut k = start;
    while k < s.len()
        invariant
            start <= k <= s.len(),
            digit_run_end(s@, start as int) == digit_run_end(s@, k as int),
        decreases s.len() - k,
    {
        let b = s[k];
        if b < 48u8 || b > 57u8 {
            return k;
        }
        k = k + 1;
    }
    k
}

/// The end of the run of number bytes (digits, `.`, `-`) in `s` that starts at
/// `start`.
pub fn number_run(s: &[u8], start: usize) -> (r: usize)
    requires
        start <= s.len(),
    ensures
        r == number_run_end(s@, start as int),
{
    let mut k = start;
    while k < s.len()
        invariant
            start <= k <= s.len(),
            number_run_end(s@, start as int) == number_run_end(s@, k as int),
        decreases s.len() - k,
    {
        let b = s[k];
        if !((48u8 <= b && b <= 57u8) || b == 46u8 || b == 45u8) {
            return k;
        }
        k = k + 1;
    }
    k
}

/// A copy of the bytes `s[from..to]`.
pub fn copy_range(s: &[u8], from: usize, to: usize) -> (r: Vec<u8>)
    requires
        from <= to <= s.len(),
    ensures
        r@ == s@.subrange(from as int, to as int),
{
    let mut r: Vec<u8> = Vec::new();
    let mut k = from;
    while k < to
        invariant
            from <= k <= to <= s.len(),
            r@ == s@.subrange(from as int, k as int),
        decreases to - k,
    {
        r.push(s[k]);
        k = k + 1;
        assert(r@ =~= s@.subrange(from as int, k as int));
    }
    r
}

/// Whether `a` and `b` are equal up to ASCII case.
pub fn bytes_eq_ignore_ascii_case(a: &[u8], b: &[u8]) -> (r: bool)
    ensures
        r == eq_ignore_ascii_case(a@, b@),
{
    if a.len() != b.len() {
        return false;
    }
    let mut i: usize = 0;
    while i < a.len()
        invariant
            a.len() == b.len(),
            i <= a.len(),
            forall|j: int| 0 <= j < i ==> ascii_lower(#[trigger] a@[j]) == ascii_lower(b@[j]),
        decreases a.len() - i,
    {
        let x = a[i];
        let y = b[i];
        let lx: u8 = if 65u8 <= x && x <= 90u8 {
            x + 32
        } else {
            x
        };
        let ly: u8 = if 65u8 <= y && y <= 90u8 {
            y + 32
        } else {
            y
        };
        if lx != ly {
            assert(ascii_lower(a@[i as int]) != ascii_lower(b@[i as int]));
            return false;
        }
        i = i + 1;
    }
    true
}

/// The pieces of `s` between occurrences of `sep`.
pub fn split_bytes(s: &[u8], sep: u8) -> (r: Vec<Vec<u8>>)
    ensures
        r@.len() == split_on(s@, sep).len(),
        forall|i: int| 0 <= i < r@.len() ==> #[trigger] r@[i]@ == split_on(s@, sep)[i],
{
    let mut r: Vec<Vec<u8>> = Vec::new();
    let mut pos: usize = 0;
    let ghost mut done: Seq<Seq<u8>> = Seq::empty();
    assert(s@.skip(0) =~= s@);
    loop
        invariant
            pos <= s.len(),
            r@.len() == done.len(),
            forall|i: int| 0 <= i < r@.len() ==> #[trigger] r@[i]@ == done[i],
            done + split_on(s@.skip(pos as int), sep) == split_on(s@, sep),
        decreases s.len() - pos,
    {
        let j = index_of(s, sep, pos);
        proof {
            lemma_index_of_from_bounds(s@, sep, pos as int);
            lemma_index_of_from_skip(s@, sep, pos as int, 0);
        }
        let piece = copy_range(s, pos, j);
        let ghost rest = s@.skip(pos as int);
        if j < s.len() {
            proof {
                assert(rest.take(j - pos) =~= piece@);
                assert(rest.skip(j - pos + 1) =~= s@.skip(j + 1));
                assert(split_on(rest, sep) == seq![piece@] + split_on(s@.skip(j + 1), sep));
                assert(done + split_on(rest, sep) =~= (done + seq![piece@]) + split_on(
                    s@.skip(j + 1),
                    sep,
                ));
                done = done + seq![piece@];
            }
            r.push(piece);
            pos = j + 1;
        } else {
            proof {
                assert(rest =~= piece@);
                assert(split_on(rest, sep) == seq![piece@]);
                done = done + seq![piece@];
            }
            r.push(piece);
            assert(done == split_on(s@, sep));
            return r;
        }
    }
}

} // verus!
