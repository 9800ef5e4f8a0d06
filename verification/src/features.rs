//! The feature vector of a pair of texts.

use crate::lcs::{
    lcs_ratio, lcs_similarity, lemma_lcs_ratio_bounded, lemma_lcs_ratio_self,
    lemma_lcs_ratio_symmetric, lemma_lcs_ratio_with_empty,
};
use crate::overlap::{
    dice, dice_coefficient, jaccard, jaccard_similarity, lemma_ngram_metrics_bounded,
    lemma_ngram_metrics_self, lemma_ngram_metrics_short, lemma_ngram_metrics_symmetric,
};
use crate::possessive::{
    lemma_possessive_bounded, lemma_possessive_self, lemma_possessive_symmetric,
    lemma_possessive_with_empty, lowercase_of, possessive, possessive_similarity,
};
use crate::ratio::{Fraction, Ratio};
use vstd::prelude::*;

verus! {

/// Size of the character n-grams that the two set-overlap features use.
pub const NGRAM_SIZE: usize = 3;

/// The mathematical value of a [`FeatureVector`].
pub struct Features {
    pub jaccard_trigram: Fraction,
    pub dice_trigram: Fraction,
    pub lcs_ratio: Fraction,
    pub possessive_similarity: Fraction,
}

impl Features {
    /// Every feature lies between zero and one.
    pub open spec fn in_unit_interval(self) -> bool {
        &&& self.jaccard_trigram.in_unit_interval()
        &&& self.dice_trigram.in_unit_interval()
        &&& self.lcs_ratio.in_unit_interval()
        &&& self.possessive_similarity.in_unit_interval()
    }

    /// Every feature is zero.
    pub open spec fn all_zero(self) -> bool {
        &&& self.jaccard_trigram.is_zero()
        &&& self.dice_trigram.is_zero()
        &&& self.lcs_ratio.is_zero()
        &&& self.possessive_similarity.is_zero()
    }

    /// Every feature is one.
    pub open spec fn all_one(self) -> bool {
        &&& self.jaccard_trigram.is_one()
        &&& self.dice_trigram.is_one()
        &&& self.lcs_ratio.is_one()
        &&& self.possessive_similarity.is_one()
    }
}

/// The features of the pair `(a, b)`.
pub open spec fn features(a: Seq<char>, b: Seq<char>) -> Features {
    Features {
        jaccard_trigram: jaccard(a, b, NGRAM_SIZE as nat),
        dice_trigram: dice(a, b, NGRAM_SIZE as nat),
        lcs_ratio: lcs_ratio(a, b),
        possessive_similarity: possessive(a, b),
    }
}

/// Swapping the two texts changes none of the features, and so no score
/// that is computed from the features alone.
pub proof fn lemma_features_symmetric(a: Seq<char>, b: Seq<char>)
    ensures
        features(a, b) == features(b, a),
{
    lemma_ngram_metrics_symmetric(a, b, NGRAM_SIZE as nat);
    lemma_lcs_ratio_symmetric(a, b);
    lemma_possessive_symmetric(a, b);
}

/// Every feature of every pair lies between zero and one.
pub proof fn lemma_features_bounded(a: Seq<char>, b: Seq<char>)
    ensures
        features(a, b).in_unit_interval(),
{
    lemma_ngram_metrics_bounded(a, b, NGRAM_SIZE as nat);
    lemma_lcs_ratio_bounded(a, b);
    lemma_possessive_bounded(a, b, lowercase_of(a), lowercase_of(b));
}

/// A text paired with itself scores one on the longest-common-subsequence
/// and possessive features as soon as it is non-empty, and on all four
/// features as soon as it holds an n-gram.
pub proof fn lemma_features_self(s: Seq<char>)
    requires
        s.len() > 0,
    ensures
        features(s, s).lcs_ratio.is_one(),
        features(s, s).possessive_similarity.is_one(),
        s.len() >= NGRAM_SIZE ==> features(s, s).all_one(),
        s.len() < NGRAM_SIZE ==> features(s, s).jaccard_trigram.is_zero() && features(
            s,
            s,
        ).dice_trigram.is_zero(),
{
    lemma_lcs_ratio_self(s);
    lemma_possessive_self(s);
    if s.len() >= NGRAM_SIZE {
        lemma_ngram_metrics_self(s, NGRAM_SIZE as nat);
    } else {
        lemma_ngram_metrics_short(s, s, NGRAM_SIZE as nat);
    }
}

/// Where one of the texts is empty, every feature is zero.
pub proof fn lemma_features_with_empty(a: Seq<char>, b: Seq<char>)
    requires
        a.len() == 0 || b.len() == 0,
    ensures
        features(a, b).all_zero(),
{
    lemma_ngram_metrics_short(a, b, NGRAM_SIZE as nat);
    lemma_lcs_ratio_with_empty(a, b);
    lemma_possessive_with_empty(a, b);
}

/// The four similarity features of a pair of texts.
#[derive(Clone, Copy, Debug)]
pub struct FeatureVector {
    pub jaccard_trigram: Ratio,
    pub dice_trigram: Ratio,
    pub lcs_ratio: Ratio,
    pub possessive_similarity: Ratio,
}

impl View for FeatureVector {
    type V = Features;

    open spec fn view(&self) -> Features {
        Features {
            jaccard_trigram: self.jaccard_trigram@,
            dice_trigram: self.dice_trigram@,
            lcs_ratio: self.lcs_ratio@,
            possessive_similarity: self.possessive_similarity@,
        }
    }
}

impl FeatureVector {
    /// Every feature is a well-formed ratio.
    pub open spec fn wf(&self) -> bool {
        self@.in_unit_interval()
    }

    /// The four ratios in their fixed order.
    pub open spec fn ordered(&self) -> Seq<Ratio> {
        seq![self.jaccard_trigram, self.dice_trigram, self.lcs_ratio, self.possessive_similarity]
    }

    /// The features in the order in which a linear model over them is
    /// indexed: Jaccard, Dice, longest common subsequence, possessive.
    pub fn to_array(&self) -> (arr: [Ratio; 4])
        ensures
            arr@ == self.ordered(),
    {
        [self.jaccard_trigram, self.dice_trigram, self.lcs_ratio, self.possessive_similarity]
    }
}

/// Computes the feature vector of two texts: Jaccard similarity and Dice
/// coefficient over character trigrams, longest-common-subsequence
/// similarity and possessive similarity.
pub fn extract_features(str1: &str, str2: &str) -> (f: FeatureVector)
    ensures
        f@ == features(str1@, str2@),
        f.wf(),
{
    FeatureVector {
        jaccard_trigram: jaccard_similarity(str1, str2, NGRAM_SIZE),
        dice_trigram: dice_coefficient(str1, str2, NGRAM_SIZE),
        lcs_ratio: lcs_similarity(str1, str2),
        possessive_similarity: possessive_similarity(str1, str2),
    }
}

} // verus!
