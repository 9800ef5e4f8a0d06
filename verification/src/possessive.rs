//! Similarity of two texts up to possessive endings and simple plurals.

use crate::chars::{same_chars, to_chars};
use crate::lcs::{
    lcs_ratio, lcs_similarity_of_chars, lemma_lcs_ratio_bounded, lemma_lcs_ratio_symmetric,
    longer,
};
use crate::ratio::{fraction_or_zero, Fraction, Ratio};
use vstd::prelude::*;

verus! {

/// The lowercase form of a text as `str::to_lowercase` computes it.
pub uninterp spec fn lowercase_of(s: Seq<char>) -> Seq<char>;

/// `s` without the occurrences of an apostrophe followed by `s`, found from
/// left to right.
pub open spec fn strip_possessive(s: Seq<char>) -> Seq<char>
    decreases s.len(),
{
    if s.len() == 0 {
        s
    } else if s.len() >= 2 && s[0] == '\'' && s[1] == 's' {
        strip_possessive(s.skip(2))
    } else {
        seq![s[0]] + strip_possessive(s.skip(1))
    }
}

/// Holds of every character but the letter `s`.
pub open spec fn is_not_s() -> spec_fn(char) -> bool {
    |c: char| c != 's'
}

/// The normal form of a lowercase text: possessive endings removed first,
/// then every remaining letter `s`.
pub open spec fn normal_form(lowered: Seq<char>) -> Seq<char> {
    strip_possessive(lowered).filter(is_not_s())
}

/// The absolute difference of two lengths.
pub open spec fn gap(m: nat, n: nat) -> nat {
    if m >= n {
        (m - n) as nat
    } else {
        (n - m) as nat
    }
}

/// One minus the difference of two lengths relative to the longer one, and
/// zero when both are zero.
pub open spec fn length_agreement(m: nat, n: nat) -> Fraction {
    fraction_or_zero((longer(m, n) - gap(m, n)) as nat, longer(m, n))
}

/// Possessive similarity of `a` and `b` whose lowercase forms are
/// `lowered_a` and `lowered_b`: the agreement of their lengths where the
/// normal forms coincide, their longest-common-subsequence ratio otherwise.
pub open spec fn possessive_from_lowered(
    a: Seq<char>,
    b: Seq<char>,
    lowered_a: Seq<char>,
    lowered_b: Seq<char>,
) -> Fraction {
    if normal_form(lowered_a) == normal_form(lowered_b) {
        length_agreement(a.len(), b.len())
    } else {
        lcs_ratio(a, b)
    }
}

/// Possessive similarity of `a` and `b`.
pub open spec fn possessive(a: Seq<char>, b: Seq<char>) -> Fraction {
    possessive_from_lowered(a, b, lowercase_of(a), lowercase_of(b))
}

/// The agreement of two lengths lies between zero and one, does not depend
/// on their order, is one for equal positive lengths and zero where one of
/// them is zero.
pub proof fn lemma_length_agreement(m: nat, n: nat)
    ensures
        length_agreement(m, n).in_unit_interval(),
        length_agreement(m, n) == length_agreement(n, m),
        m == n && m > 0 ==> length_agreement(m, n).is_one(),
        m == 0 || n == 0 ==> length_agreement(m, n).is_zero(),
{
}

/// Possessive similarity lies between zero and one, whatever the lowercase
/// forms of the two texts are.
pub proof fn lemma_possessive_bounded(
    a: Seq<char>,
    b: Seq<char>,
    lowered_a: Seq<char>,
    lowered_b: Seq<char>,
)
    ensures
        possessive_from_lowered(a, b, lowered_a, lowered_b).in_unit_interval(),
{
    lemma_lcs_ratio_bounded(a, b);
    lemma_length_agreement(a.len(), b.len());
}

/// Possessive similarity is symmetric in the two texts: the normal forms
/// are compared for equality, the length penalty uses the absolute
/// difference, and the fallback is symmetric.
pub proof fn lemma_possessive_symmetric(a: Seq<char>, b: Seq<char>)
    ensures
        possessive(a, b) == possessive(b, a),
{
    lemma_lcs_ratio_symmetric(a, b);
    lemma_length_agreement(a.len(), b.len());
}

/// A non-empty text has possessive similarity one with itself.
pub proof fn lemma_possessive_self(s: Seq<char>)
    requires
        s.len() > 0,
    ensures
        possessive(s, s).is_one(),
{
    lemma_length_agreement(s.len(), s.len());
}

/// Where one of the texts is empty, possessive similarity is zero.
pub proof fn lemma_possessive_with_empty(a: Seq<char>, b: Seq<char>)
    requires
        a.len() == 0 || b.len() == 0,
    ensures
        possessive(a, b).is_zero(),
{
    lemma_length_agreement(a.len(), b.len());
}

/// Calls `str::to_lowercase`, whose result depends on the text alone; the
/// contract gives that result its name and claims nothing else of it.
#[verifier::external_body]
fn lowercased(s: &str) -> (lowered: String)
    ensures
        lowered@ == lowercase_of(s@),
{
    s.to_lowercase()
}

/// `s` without its possessive endings.
pub fn remove_possessive_endings(s: &Vec<char>) -> (out: Vec<char>)
    ensures
        out@ == strip_possessive(s@),
{
    let mut out: Vec<char> = Vec::new();
    let mut i: usize = 0;
    assert(s@.skip(0) =~= s@);
    while i < s.len()
        invariant
            i <= s.len(),
            out@ + strip_possessive(s@.skip(i as int)) == strip_possessive(s@),
        decreases s.len() - i,
    {
        let ghost rest = s@.skip(i as int);
        let ghost done = out@;
        if s[i] == '\'' && i + 1 < s.len() && s[i + 1] == 's' {
            assert(rest.skip(2) =~= s@.skip(i + 2));
            i = i + 2;
        } else {
            out.push(s[i]);
            proof {
                assert(rest.skip(1) =~= s@.skip(i + 1));
                assert(out@ + strip_possessive(rest.skip(1)) =~= done + (seq![rest[0]]
                    + strip_possessive(rest.skip(1))));
            }
            i = i + 1;
        }
    }
    out
}

/// `s` without any letter `s`.
pub fn remove_letter_s(s: &Vec<char>) -> (out: Vec<char>)
    ensures
        out@ == s@.filter(is_not_s()),
{
    let mut out: Vec<char> = Vec::new();
    let mut i: usize = 0;
    proof {
        reveal(Seq::filter);
    }
    while i < s.len()
        invariant
            i <= s.len(),
            out@ == s@.take(i as int).filter(is_not_s()),
        decreases s.len() - i,
    {
        proof {
            reveal(Seq::filter);
            assert(s@.take(i + 1).drop_last() =~= s@.take(i as int));
        }
        if s[i] != 's' {
            out.push(s[i]);
        }
        i = i + 1;
    }
    assert(s@.take(i as int) =~= s@);
    out
}

/// The normal form of a text that is already in lowercase.
pub fn normalize_lowered(lowered: &str) -> (out: Vec<char>)
    ensures
        out@ == normal_form(lowered@),
{
    let chars = to_chars(lowered);
    let stripped = remove_possessive_endings(&chars);
    remove_letter_s(&stripped)
}

/// Possessive similarity of `str1` and `str2`, given their lowercase forms.
pub fn possessive_similarity_from_lowered(
    str1: &str,
    str2: &str,
    lowered1: &str,
    lowered2: &str,
) -> (r: Ratio)
    ensures
        r@ == possessive_from_lowered(str1@, str2@, lowered1@, lowered2@),
        r.wf(),
{
    let norm1 = normalize_lowered(lowered1);
    let norm2 = normalize_lowered(lowered2);
    let s1 = to_chars(str1);
    let s2 = to_chars(str2);
    if same_chars(&norm1, &norm2) {
        let m: usize = s1.len();
        let n: usize = s2.len();
        let (longest, difference): (usize, usize) = if m >= n {
            (m, m - n)
        } else {
            (n, n - m)
        };
        proof {
            lemma_length_agreement(m as nat, n as nat);
        }
        Ratio::new((longest - difference) as u128, longest as u128)
    } else {
        lcs_similarity_of_chars(&s1, &s2)
    }
}

/// Possessive similarity: both texts are put in lowercase and stripped of
/// possessive endings and of the letter `s`. Where the results agree, the
/// score is one minus the difference of the texts' lengths relative to the
/// longer one; otherwise it is their longest-common-subsequence similarity.
/// Lengths are counted in characters.
pub fn possessive_similarity(str1: &str, str2: &str) -> (r: Ratio)
    ensures
        r@ == possessive(str1@, str2@),
        r.wf(),
{
    let lowered1 = lowercased(str1);
    let lowered2 = lowercased(str2);
    possessive_similarity_from_lowered(str1, str2, lowered1.as_str(), lowered2.as_str())
}

} // verus!
