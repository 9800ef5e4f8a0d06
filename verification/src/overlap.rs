//! Set-overlap metrics over character n-grams: Jaccard and Dice.

use crate::chars::to_chars;
use crate::ngram::{lemma_ngrams_finite, ngrams, NgramSet};
use crate::ratio::{fraction_or_zero, Fraction, Ratio};
use vstd::prelude::*;
use vstd::set_lib::{lemma_len_intersect, lemma_set_intersect_union_lens};

verus! {

/// Intersection over union of two sets, zero when both are empty.
pub open spec fn jaccard_of(x: Set<Seq<char>>, y: Set<Seq<char>>) -> Fraction {
    fraction_or_zero(x.intersect(y).len(), x.union(y).len())
}

/// Twice the intersection over the sum of the sizes of two sets, zero when
/// both are empty.
pub open spec fn dice_of(x: Set<Seq<char>>, y: Set<Seq<char>>) -> Fraction {
    fraction_or_zero(2 * x.intersect(y).len(), x.len() + y.len())
}

/// Jaccard similarity of the n-gram sets of `a` and `b`.
pub open spec fn jaccard(a: Seq<char>, b: Seq<char>, n: nat) -> Fraction {
    jaccard_of(ngrams(a, n), ngrams(b, n))
}

/// Dice coefficient of the n-gram sets of `a` and `b`.
pub open spec fn dice(a: Seq<char>, b: Seq<char>, n: nat) -> Fraction {
    dice_of(ngrams(a, n), ngrams(b, n))
}

/// Both overlap metrics of finite sets lie between zero and one.
pub proof fn lemma_overlap_bounded(x: Set<Seq<char>>, y: Set<Seq<char>>)
    requires
        x.finite(),
        y.finite(),
    ensures
        jaccard_of(x, y).in_unit_interval(),
        dice_of(x, y).in_unit_interval(),
{
    lemma_set_intersect_union_lens(x, y);
    lemma_len_intersect(x, y);
    lemma_len_intersect(y, x);
    assert(y.intersect(x) =~= x.intersect(y));
}

/// Both overlap metrics are unchanged when the two sets are swapped.
pub proof fn lemma_overlap_symmetric(x: Set<Seq<char>>, y: Set<Seq<char>>)
    ensures
        jaccard_of(x, y) == jaccard_of(y, x),
        dice_of(x, y) == dice_of(y, x),
{
    assert(y.intersect(x) =~= x.intersect(y));
    assert(y.union(x) =~= x.union(y));
}

/// Both overlap metrics of a non-empty finite set with itself are one.
pub proof fn lemma_overlap_self(x: Set<Seq<char>>)
    requires
        x.finite(),
        x.len() > 0,
    ensures
        jaccard_of(x, x).is_one(),
        dice_of(x, x).is_one(),
{
    assert(x.intersect(x) =~= x);
    assert(x.union(x) =~= x);
}

/// Both overlap metrics are zero when one of the sets is empty.
pub proof fn lemma_overlap_with_empty(x: Set<Seq<char>>, y: Set<Seq<char>>)
    requires
        x == Set::<Seq<char>>::empty() || y == Set::<Seq<char>>::empty(),
    ensures
        jaccard_of(x, y).is_zero(),
        dice_of(x, y).is_zero(),
{
    assert(x.intersect(y) =~= Set::<Seq<char>>::empty());
}

/// Jaccard similarity and Dice coefficient are symmetric in the two texts.
pub proof fn lemma_ngram_metrics_symmetric(a: Seq<char>, b: Seq<char>, n: nat)
    ensures
        jaccard(a, b, n) == jaccard(b, a, n),
        dice(a, b, n) == dice(b, a, n),
{
    lemma_overlap_symmetric(ngrams(a, n), ngrams(b, n));
}

/// Jaccard similarity and Dice coefficient lie between zero and one.
pub proof fn lemma_ngram_metrics_bounded(a: Seq<char>, b: Seq<char>, n: nat)
    ensures
        jaccard(a, b, n).in_unit_interval(),
        dice(a, b, n).in_unit_interval(),
{
    lemma_ngrams_finite(a, n);
    lemma_ngrams_finite(b, n);
    lemma_overlap_bounded(ngrams(a, n), ngrams(b, n));
}

/// A text of at least `n` characters has Jaccard similarity and Dice
/// coefficient one with itself.
pub proof fn lemma_ngram_metrics_self(s: Seq<char>, n: nat)
    requires
        0 < n <= s.len(),
    ensures
        jaccard(s, s, n).is_one(),
        dice(s, s, n).is_one(),
{
    lemma_ngrams_finite(s, n);
    lemma_overlap_self(ngrams(s, n));
}

/// Where one of the texts is shorter than `n` characters, it has no n-grams
/// and both metrics are zero.
pub proof fn lemma_ngram_metrics_short(a: Seq<char>, b: Seq<char>, n: nat)
    requires
        a.len() < n || b.len() < n,
    ensures
        jaccard(a, b, n).is_zero(),
        dice(a, b, n).is_zero(),
{
    lemma_ngrams_finite(a, n);
    lemma_ngrams_finite(b, n);
    lemma_overlap_with_empty(ngrams(a, n), ngrams(b, n));
}

/// Jaccard similarity of two n-gram sets.
pub fn jaccard_of_sets(x: &NgramSet, y: &NgramSet) -> (r: Ratio)
    ensures
        r@ == jaccard_of(x@, y@),
        r.wf(),
{
    let common: usize = x.count_common(y);
    let total: u128 = x.len() as u128 + y.len() as u128;
    proof {
        lemma_set_intersect_union_lens(x@, y@);
        lemma_overlap_bounded(x@, y@);
    }
    Ratio::new(common as u128, total - common as u128)
}

/// Dice coefficient of two n-gram sets.
pub fn dice_of_sets(x: &NgramSet, y: &NgramSet) -> (r: Ratio)
    ensures
        r@ == dice_of(x@, y@),
        r.wf(),
{
    let common: usize = x.count_common(y);
    let total: u128 = x.len() as u128 + y.len() as u128;
    proof {
        lemma_overlap_bounded(x@, y@);
    }
    Ratio::new(2 * (common as u128), total)
}

/// Jaccard similarity of the sets of distinct character n-grams of two
/// texts: the size of their intersection over the size of their union, and
/// zero where neither text has an n-gram.
pub fn jaccard_similarity(str1: &str, str2: &str, n_gram: usize) -> (r: Ratio)
    requires
        n_gram > 0,
    ensures
        r@ == jaccard(str1@, str2@, n_gram as nat),
        r.wf(),
{
    let s1 = to_chars(str1);
    let s2 = to_chars(str2);
    let x = NgramSet::of_chars(&s1, n_gram);
    let y = NgramSet::of_chars(&s2, n_gram);
    jaccard_of_sets(&x, &y)
}

/// Dice coefficient of the sets of distinct character n-grams of two texts:
/// twice the size of their intersection over the sum of their sizes, and
/// zero where neither text has an n-gram.
pub fn dice_coefficient(str1: &str, str2: &str, n_gram: usize) -> (r: Ratio)
    requires
        n_gram > 0,
    ensures
        r@ == dice(str1@, str2@, n_gram as nat),
        r.wf(),
{
    let s1 = to_chars(str1);
    let s2 = to_chars(str2);
    let x = NgramSet::of_chars(&s1, n_gram);
    let y = NgramSet::of_chars(&s2, n_gram);
    dice_of_sets(&x, &y)
}

} // verus!
