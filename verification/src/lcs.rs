//! Longest common subsequences of two character sequences.

use crate::chars::to_chars;
use crate::ratio::{fraction_or_zero, Fraction, Ratio};
use vstd::prelude::*;

verus! {

/// `idx` lists strictly increasing positions of `s` that spell out `c`.
pub open spec fn embeds_at(c: Seq<char>, s: Seq<char>, idx: Seq<int>) -> bool {
    &&& idx.len() == c.len()
    &&& forall|k: int|
        0 <= k < idx.len() ==> 0 <= #[trigger] idx[k] < s.len() && s[idx[k]] == c[k]
    &&& forall|j: int, k: int| 0 <= j < k < idx.len() ==> idx[j] < idx[k]
}

/// `c` can be obtained from `s` by deleting characters.
pub open spec fn is_subsequence(c: Seq<char>, s: Seq<char>) -> bool {
    exists|idx: Seq<int>| embeds_at(c, s, idx)
}

/// `c` is a subsequence of both `a` and `b`.
pub open spec fn is_common_subsequence(c: Seq<char>, a: Seq<char>, b: Seq<char>) -> bool {
    is_subsequence(c, a) && is_subsequence(c, b)
}

/// The larger of two lengths.
pub open spec fn longer(m: nat, n: nat) -> nat {
    if m >= n {
        m
    } else {
        n
    }
}

/// Length of a longest common subsequence, by the classic recurrence on the
/// last characters.
pub open spec fn lcs_len(a: Seq<char>, b: Seq<char>) -> nat
    decreases a.len() + b.len(),
{
    if a.len() == 0 || b.len() == 0 {
        0
    } else if a.last() == b.last() {
        lcs_len(a.drop_last(), b.drop_last()) + 1
    } else {
        longer(lcs_len(a.drop_last(), b), lcs_len(a, b.drop_last()))
    }
}

/// `l` is the length of some common subsequence of `a` and `b`, and of none
/// that is longer.
pub open spec fn is_longest_common_length(l: nat, a: Seq<char>, b: Seq<char>) -> bool {
    &&& exists|c: Seq<char>| #[trigger] is_common_subsequence(c, a, b) && c.len() == l
    &&& forall|c: Seq<char>| #[trigger] is_common_subsequence(c, a, b) ==> c.len() <= l
}

/// The longest-common-subsequence length relative to the longer input, zero
/// when both inputs are empty.
pub open spec fn lcs_ratio(a: Seq<char>, b: Seq<char>) -> Fraction {
    fraction_or_zero(lcs_len(a, b), longer(a.len(), b.len()))
}

/// A longest common subsequence is no longer than either input.
pub proof fn lemma_lcs_len_bounded(a: Seq<char>, b: Seq<char>)
    ensures
        lcs_len(a, b) <= a.len(),
        lcs_len(a, b) <= b.len(),
    decreases a.len() + b.len(),
{
    if a.len() == 0 || b.len() == 0 {
    } else if a.last() == b.last() {
        lemma_lcs_len_bounded(a.drop_last(), b.drop_last());
    } else {
        lemma_lcs_len_bounded(a.drop_last(), b);
        lemma_lcs_len_bounded(a, b.drop_last());
    }
}

/// Swapping the inputs does not change the length.
pub proof fn lemma_lcs_len_symmetric(a: Seq<char>, b: Seq<char>)
    ensures
        lcs_len(a, b) == lcs_len(b, a),
    decreases a.len() + b.len(),
{
    if a.len() == 0 || b.len() == 0 {
    } else if a.last() == b.last() {
        lemma_lcs_len_symmetric(a.drop_last(), b.drop_last());
    } else {
        lemma_lcs_len_symmetric(a.drop_last(), b);
        lemma_lcs_len_symmetric(a, b.drop_last());
    }
}

/// A sequence is its own longest common subsequence.
pub proof fn lemma_lcs_len_self(a: Seq<char>)
    ensures
        lcs_len(a, a) == a.len(),
    decreases a.len(),
{
    if a.len() > 0 {
        lemma_lcs_len_self(a.drop_last());
    }
}

/// The longest-common-subsequence ratio lies between zero and one.
pub proof fn lemma_lcs_ratio_bounded(a: Seq<char>, b: Seq<char>)
    ensures
        lcs_ratio(a, b).in_unit_interval(),
{
    lemma_lcs_len_bounded(a, b);
}

/// The longest-common-subsequence ratio is symmetric in the two texts.
pub proof fn lemma_lcs_ratio_symmetric(a: Seq<char>, b: Seq<char>)
    ensures
        lcs_ratio(a, b) == lcs_ratio(b, a),
{
    lemma_lcs_len_symmetric(a, b);
}

/// A non-empty text has longest-common-subsequence ratio one with itself.
pub proof fn lemma_lcs_ratio_self(s: Seq<char>)
    requires
        s.len() > 0,
    ensures
        lcs_ratio(s, s).is_one(),
{
    lemma_lcs_len_self(s);
}

/// Where one of the texts is empty, the ratio is zero.
pub proof fn lemma_lcs_ratio_with_empty(a: Seq<char>, b: Seq<char>)
    requires
        a.len() == 0 || b.len() == 0,
    ensures
        lcs_ratio(a, b).is_zero(),
{
}

/// Some common subsequence of `a` and `b` has length `lcs_len(a, b)`.
pub proof fn lemma_lcs_len_attained(a: Seq<char>, b: Seq<char>) -> (c: Seq<char>)
    ensures
        is_common_subsequence(c, a, b),
        c.len() == lcs_len(a, b),
    decreases a.len() + b.len(),
{
    if a.len() == 0 || b.len() == 0 {
        let c = Seq::<char>::empty();
        let idx = Seq::<int>::empty();
        assert(embeds_at(c, a, idx));
        assert(embeds_at(c, b, idx));
        c
    } else if a.last() == b.last() {
        let c = lemma_lcs_len_attained(a.drop_last(), b.drop_last());
        lemma_subsequence_push(c, a);
        lemma_subsequence_push(c, b);
        c.push(a.last())
    } else if lcs_len(a.drop_last(), b) >= lcs_len(a, b.drop_last()) {
        let c = lemma_lcs_len_attained(a.drop_last(), b);
        lemma_subsequence_widen(c, a);
        c
    } else {
        let c = lemma_lcs_len_attained(a, b.drop_last());
        lemma_subsequence_widen(c, b);
        c
    }
}

/// No common subsequence of `a` and `b` is longer than `lcs_len(a, b)`.
pub proof fn lemma_lcs_len_maximal(a: Seq<char>, b: Seq<char>, c: Seq<char>)
    requires
        is_common_subsequence(c, a, b),
    ensures
        c.len() <= lcs_len(a, b),
    decreases a.len() + b.len(),
{
    if c.len() > 0 {
        let ia = choose|idx: Seq<int>| embeds_at(c, a, idx);
        let ib = choose|idx: Seq<int>| embeds_at(c, b, idx);
        // `c` is not empty, so neither `a` nor `b` is.
        assert(0 <= ia[0] < a.len() && 0 <= ib[0] < b.len());
        if a.last() == b.last() {
            lemma_subsequence_drop_last(c, a, ia);
            lemma_subsequence_drop_last(c, b, ib);
            lemma_lcs_len_maximal(a.drop_last(), b.drop_last(), c.drop_last());
        } else if ia.last() < a.len() - 1 {
            lemma_subsequence_narrow(c, a, ia);
            lemma_lcs_len_maximal(a.drop_last(), b, c);
        } else {
            // `c` ends with the last character of `a`, which is not that of `b`.
            assert(c.last() == a.last());
            lemma_subsequence_narrow(c, b, ib);
            lemma_lcs_len_maximal(a, b.drop_last(), c);
        }
    }
}

/// The recurrence computes the length of a longest common subsequence.
pub proof fn lemma_lcs_len_is_longest(a: Seq<char>, b: Seq<char>)
    ensures
        is_longest_common_length(lcs_len(a, b), a, b),
{
    let witness = lemma_lcs_len_attained(a, b);
    assert forall|c: Seq<char>| #[trigger] is_common_subsequence(c, a, b) implies c.len()
        <= lcs_len(a, b) by {
        lemma_lcs_len_maximal(a, b, c);
    }
}

/// A subsequence of all but the last character is a subsequence of the whole.
proof fn lemma_subsequence_widen(c: Seq<char>, s: Seq<char>)
    requires
        s.len() > 0,
        is_subsequence(c, s.drop_last()),
    ensures
        is_subsequence(c, s),
{
    let idx = choose|idx: Seq<int>| embeds_at(c, s.drop_last(), idx);
    assert(embeds_at(c, s, idx));
}

/// Appending the last character of `s` to a subsequence of the rest gives a
/// subsequence of `s`.
proof fn lemma_subsequence_push(c: Seq<char>, s: Seq<char>)
    requires
        s.len() > 0,
        is_subsequence(c, s.drop_last()),
    ensures
        is_subsequence(c.push(s.last()), s),
{
    let idx = choose|idx: Seq<int>| embeds_at(c, s.drop_last(), idx);
    assert(embeds_at(c.push(s.last()), s, idx.push(s.len() - 1)));
}

/// A subsequence that does not use the last character of `s` is a
/// subsequence of the rest.
proof fn lemma_subsequence_narrow(c: Seq<char>, s: Seq<char>, idx: Seq<int>)
    requires
        embeds_at(c, s, idx),
        c.len() > 0,
        idx.last() < s.len() - 1,
    ensures
        is_subsequence(c, s.drop_last()),
{
    assert forall|k: int| 0 <= k < idx.len() implies #[trigger] idx[k] <= idx.last() by {}
    assert(embeds_at(c, s.drop_last(), idx));
}

/// Dropping the last character of a non-empty subsequence gives a
/// subsequence of all but the last character of `s`.
proof fn lemma_subsequence_drop_last(c: Seq<char>, s: Seq<char>, idx: Seq<int>)
    requires
        embeds_at(c, s, idx),
        c.len() > 0,
    ensures
        is_subsequence(c.drop_last(), s.drop_last()),
{
    assert forall|k: int| 0 <= k < idx.len() - 1 implies #[trigger] idx[k] < idx.last() by {}
    assert(embeds_at(c.drop_last(), s.drop_last(), idx.drop_last()));
}

/// One cell of the table from its three neighbours.
proof fn lemma_lcs_len_step(a: Seq<char>, b: Seq<char>, i: int, j: int)
    requires
        0 <= i < a.len(),
        0 <= j < b.len(),
    ensures
        lcs_len(a.take(i + 1), b.take(j + 1)) == if a[i] == b[j] {
            lcs_len(a.take(i), b.take(j)) + 1
        } else {
            longer(lcs_len(a.take(i), b.take(j + 1)), lcs_len(a.take(i + 1), b.take(j)))
        },
{
    assert(a.take(i + 1).drop_last() =~= a.take(i));
    assert(b.take(j + 1).drop_last() =~= b.take(j));
}

/// Row `i` of the table: entry `j` holds the answer for the first `i`
/// characters of `a` and the first `j` characters of `b`.
spec fn is_table_row(row: Seq<usize>, a: Seq<char>, b: Seq<char>, i: int) -> bool {
    forall|j: int| 0 <= j < row.len() ==> #[trigger] row[j] == lcs_len(a.take(i), b.take(j))
}

/// Length of a longest common subsequence of `s1` and `s2`, filled in row by
/// row over a table of `(s1.len() + 1) * (s2.len() + 1)` cells.
pub fn lcs_length(s1: &Vec<char>, s2: &Vec<char>) -> (l: usize)
    ensures
        l == lcs_len(s1@, s2@),
        is_longest_common_length(l as nat, s1@, s2@),
{
    let m: usize = s1.len();
    let n: usize = s2.len();
    let ghost a = s1@;
    let ghost b = s2@;
    let mut first: Vec<usize> = Vec::new();
    first.push(0);
    let mut j: usize = 0;
    while j < n
        invariant
            j <= n,
            first@.len() == j + 1,
            is_table_row(first@, a, b, 0),
        decreases n - j,
    {
        first.push(0);
        j = j + 1;
    }
    let mut dp: Vec<Vec<usize>> = Vec::new();
    dp.push(first);
    let mut i: usize = 0;
    while i < m
        invariant
            i <= m,
            m == a.len(),
            n == b.len(),
            a == s1@,
            b == s2@,
            dp@.len() == i + 1,
            forall|r: int|
                0 <= r <= i ==> (#[trigger] dp@[r])@.len() == n + 1 && is_table_row(
                    dp@[r]@,
                    a,
                    b,
                    r,
                ),
        decreases m - i,
    {
        let mut row: Vec<usize> = Vec::new();
        row.push(0);
        let mut j: usize = 0;
        while j < n
            invariant
                j <= n,
                i < m,
                m == a.len(),
                n == b.len(),
                a == s1@,
                b == s2@,
                dp@.len() == i + 1,
                dp@[i as int]@.len() == n + 1,
                is_table_row(dp@[i as int]@, a, b, i as int),
                row@.len() == j + 1,
                is_table_row(row@, a, b, i + 1),
            decreases n - j,
        {
            proof {
                lemma_lcs_len_step(a, b, i as int, j as int);
                lemma_lcs_len_bounded(a.take(i as int), b.take(j as int));
            }
            let cell: usize = if s1[i] == s2[j] {
                dp[i][j] + 1
            } else {
                let up: usize = dp[i][j + 1];
                let left: usize = row[j];
                if up >= left {
                    up
                } else {
                    left
                }
            };
            row.push(cell);
            j = j + 1;
        }
        dp.push(row);
        i = i + 1;
    }
    proof {
        assert(a.take(m as int) =~= a);
        assert(b.take(n as int) =~= b);
        lemma_lcs_len_is_longest(a, b);
    }
    dp[m][n]
}

/// Longest-common-subsequence similarity of two character vectors.
pub fn lcs_similarity_of_chars(s1: &Vec<char>, s2: &Vec<char>) -> (r: Ratio)
    ensures
        r@ == lcs_ratio(s1@, s2@),
        r.wf(),
{
    let l: usize = lcs_length(s1, s2);
    let m: usize = s1.len();
    let n: usize = s2.len();
    let max_len: usize = if m >= n {
        m
    } else {
        n
    };
    proof {
        lemma_lcs_ratio_bounded(s1@, s2@);
    }
    Ratio::new(l as u128, max_len as u128)
}

/// Longest-common-subsequence similarity: the length of a longest common
/// subsequence of the two texts divided by the length of the longer text,
/// and zero when both are empty.
pub fn lcs_similarity(str1: &str, str2: &str) -> (r: Ratio)
    ensures
        r@ == lcs_ratio(str1@, str2@),
        r.wf(),
{
    let s1 = to_chars(str1);
    let s2 = to_chars(str2);
    lcs_similarity_of_chars(&s1, &s2)
}

} // verus!
