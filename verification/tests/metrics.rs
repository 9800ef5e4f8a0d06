use word_similarity::chars::{same_chars, to_chars};
use word_similarity::lcs::{lcs_length, lcs_similarity, lcs_similarity_of_chars};
use word_similarity::ngram::{copy_window, NgramSet};
use word_similarity::overlap::{
    dice_coefficient, dice_of_sets, jaccard_of_sets, jaccard_similarity,
};
use word_similarity::ratio::Ratio;

fn pair(r: Ratio) -> (u128, u128) {
    (r.num, r.den)
}

fn value(r: Ratio) -> f64 {
    r.num as f64 / r.den as f64
}

fn chars(s: &str) -> Vec<char> {
    s.chars().collect()
}

#[test]
fn ratio_new_keeps_the_counts() {
    assert_eq!(pair(Ratio::new(3, 7)), (3, 7));
    assert_eq!(pair(Ratio::new(7, 7)), (7, 7));
    assert_eq!(pair(Ratio::new(0, 5)), (0, 5));
}

#[test]
fn ratio_new_defines_zero_over_zero_as_zero() {
    let r = Ratio::new(0, 0);
    assert_eq!(pair(r), (0, 1));
    assert!(r.is_zero());
    assert!(!r.is_one());
}

#[test]
fn ratio_is_zero_and_is_one() {
    assert!(Ratio::new(0, 9).is_zero());
    assert!(!Ratio::new(1, 9).is_zero());
    assert!(Ratio::new(9, 9).is_one());
    assert!(!Ratio::new(8, 9).is_one());
}

#[test]
fn to_chars_splits_by_scalar_value_not_by_byte() {
    assert_eq!(to_chars(""), Vec::<char>::new());
    assert_eq!(to_chars("abc"), vec!['a', 'b', 'c']);
    assert_eq!(to_chars("h\u{e9}llo"), vec!['h', '\u{e9}', 'l', 'l', 'o']);
    assert_eq!(to_chars("\u{65e5}\u{672c}").len(), 2);
}

#[test]
fn same_chars_compares_length_and_content() {
    assert!(same_chars(&chars(""), &chars("")));
    assert!(same_chars(&chars("abc"), &chars("abc")));
    assert!(!same_chars(&chars("abc"), &chars("abd")));
    assert!(!same_chars(&chars("abc"), &chars("ab")));
    assert!(!same_chars(&chars("ab"), &chars("abc")));
}

#[test]
fn copy_window_takes_n_characters_from_start() {
    let s = chars("kitten");
    assert_eq!(copy_window(&s, 0, 3), chars("kit"));
    assert_eq!(copy_window(&s, 3, 3), chars("ten"));
    assert_eq!(copy_window(&s, 2, 0), chars(""));
    assert_eq!(copy_window(&s, 0, 6), chars("kitten"));
}

#[test]
fn ngram_set_of_kitten_has_four_trigrams() {
    let set = NgramSet::of_chars(&chars("kitten"), 3);
    assert_eq!(set.len(), 4);
    assert!(set.contains(&chars("kit")));
    assert!(set.contains(&chars("itt")));
    assert!(set.contains(&chars("tte")));
    assert!(set.contains(&chars("ten")));
    assert!(!set.contains(&chars("sit")));
    assert!(!set.contains(&chars("ki")));
}

#[test]
fn ngram_set_keeps_each_ngram_once() {
    let set = NgramSet::of_chars(&chars("aaaaaa"), 3);
    assert_eq!(set.len(), 1);
    assert!(set.contains(&chars("aaa")));
    let set = NgramSet::of_chars(&chars("abababab"), 2);
    assert_eq!(set.len(), 2);
}

#[test]
fn ngram_set_of_short_text_is_empty() {
    assert_eq!(NgramSet::of_chars(&chars("ab"), 3).len(), 0);
    assert_eq!(NgramSet::of_chars(&chars(""), 3).len(), 0);
    assert_eq!(NgramSet::of_chars(&chars(""), 1).len(), 0);
    assert_eq!(NgramSet::of_chars(&chars("abc"), 3).len(), 1);
}

#[test]
fn ngram_set_unigrams_are_the_distinct_characters() {
    let set = NgramSet::of_chars(&chars("mississippi"), 1);
    assert_eq!(set.len(), 4);
}

#[test]
fn ngram_set_new_is_empty_and_inserted_adds_once() {
    let set = NgramSet::new();
    assert_eq!(set.len(), 0);
    assert!(!set.contains(&chars("abc")));
    let set = set.inserted(chars("abc"));
    assert_eq!(set.len(), 1);
    assert!(set.contains(&chars("abc")));
    let set = set.inserted(chars("abc"));
    assert_eq!(set.len(), 1);
    let set = set.inserted(chars("abd"));
    assert_eq!(set.len(), 2);
}

#[test]
fn ngram_set_count_common_counts_shared_members() {
    let x = NgramSet::of_chars(&chars("kitten"), 3);
    let y = NgramSet::of_chars(&chars("sitting"), 3);
    assert_eq!(y.len(), 5);
    assert_eq!(x.count_common(&y), 1);
    assert_eq!(y.count_common(&x), 1);
    assert_eq!(x.count_common(&x), 4);
    assert_eq!(x.count_common(&NgramSet::new()), 0);
    assert_eq!(NgramSet::new().count_common(&x), 0);
}

#[test]
fn overlap_of_sets_matches_the_counts() {
    let x = NgramSet::of_chars(&chars("kitten"), 3);
    let y = NgramSet::of_chars(&chars("sitting"), 3);
    assert_eq!(pair(jaccard_of_sets(&x, &y)), (1, 8));
    assert_eq!(pair(dice_of_sets(&x, &y)), (2, 9));
    let empty = NgramSet::new();
    assert_eq!(pair(jaccard_of_sets(&empty, &empty)), (0, 1));
    assert_eq!(pair(dice_of_sets(&empty, &empty)), (0, 1));
    assert_eq!(pair(jaccard_of_sets(&x, &empty)), (0, 4));
    assert_eq!(pair(dice_of_sets(&x, &empty)), (0, 4));
}

#[test]
fn jaccard_of_kitten_and_sitting_is_one_eighth() {
    let r = jaccard_similarity("kitten", "sitting", 3);
    assert_eq!(pair(r), (1, 8));
    assert_eq!(value(r), 0.125);
}

#[test]
fn dice_of_kitten_and_sitting_is_two_ninths() {
    let r = dice_coefficient("kitten", "sitting", 3);
    assert_eq!(pair(r), (2, 9));
    assert!((value(r) - 0.2222222222222222).abs() < 1e-15);
}

#[test]
fn jaccard_and_dice_of_identical_texts_are_one() {
    assert_eq!(pair(jaccard_similarity("cat", "cat", 3)), (1, 1));
    assert_eq!(pair(dice_coefficient("cat", "cat", 3)), (2, 2));
    assert!(jaccard_similarity("similarity", "similarity", 3).is_one());
    assert!(dice_coefficient("similarity", "similarity", 3).is_one());
}

#[test]
fn jaccard_and_dice_of_disjoint_texts_are_zero() {
    assert_eq!(pair(jaccard_similarity("cat", "dog", 3)), (0, 2));
    assert_eq!(pair(dice_coefficient("cat", "dog", 3)), (0, 2));
}

#[test]
fn jaccard_and_dice_fall_back_to_zero_without_ngrams() {
    assert_eq!(pair(jaccard_similarity("ab", "ab", 3)), (0, 1));
    assert_eq!(pair(dice_coefficient("ab", "ab", 3)), (0, 1));
    assert_eq!(pair(jaccard_similarity("", "", 3)), (0, 1));
    assert_eq!(pair(dice_coefficient("", "", 3)), (0, 1));
    assert_eq!(pair(jaccard_similarity("ab", "", 3)), (0, 1));
    assert_eq!(pair(dice_coefficient("", "ab", 3)), (0, 1));
}

#[test]
fn jaccard_and_dice_with_one_short_text_are_zero() {
    assert!(jaccard_similarity("ab", "abc", 3).is_zero());
    assert!(dice_coefficient("ab", "abc", 3).is_zero());
    assert_eq!(pair(jaccard_similarity("", "abc", 3)), (0, 1));
    assert_eq!(pair(dice_coefficient("", "abc", 3)), (0, 1));
}

#[test]
fn jaccard_and_dice_with_other_ngram_sizes() {
    // bigrams of "night": ni ig gh ht; of "nacht": na ac ch ht
    assert_eq!(pair(jaccard_similarity("night", "nacht", 2)), (1, 7));
    assert_eq!(pair(dice_coefficient("night", "nacht", 2)), (2, 8));
    // unigrams: {n,i,g,h,t} and {n,a,c,h,t}
    assert_eq!(pair(jaccard_similarity("night", "nacht", 1)), (3, 7));
    assert_eq!(pair(dice_coefficient("night", "nacht", 1)), (6, 10));
    assert_eq!(pair(jaccard_similarity("night", "nacht", 5)), (0, 2));
    assert_eq!(pair(jaccard_similarity("night", "nacht", 6)), (0, 1));
}

#[test]
fn jaccard_and_dice_are_symmetric() {
    let pairs = [
        ("kitten", "sitting"),
        ("John's", "Johns"),
        ("", "abc"),
        ("night", "nacht"),
        ("mississippi", "missouri"),
    ];
    for (a, b) in pairs {
        assert_eq!(pair(jaccard_similarity(a, b, 3)), pair(jaccard_similarity(b, a, 3)));
        assert_eq!(pair(dice_coefficient(a, b, 3)), pair(dice_coefficient(b, a, 3)));
    }
}

#[test]
fn jaccard_and_dice_count_characters_not_bytes() {
    // three characters, one trigram each
    assert_eq!(pair(jaccard_similarity("\u{e9}t\u{e9}", "\u{e9}t\u{e9}", 3)), (1, 1));
    // two characters of two bytes each: no trigram
    assert_eq!(pair(jaccard_similarity("\u{e9}\u{e9}", "\u{e9}\u{e9}", 3)), (0, 1));
}

#[test]
fn lcs_length_of_kitten_and_sitting_is_four() {
    assert_eq!(lcs_length(&chars("kitten"), &chars("sitting")), 4);
    assert_eq!(lcs_length(&chars("sitting"), &chars("kitten")), 4);
}

#[test]
fn lcs_length_edge_cases() {
    assert_eq!(lcs_length(&chars(""), &chars("")), 0);
    assert_eq!(lcs_length(&chars(""), &chars("abc")), 0);
    assert_eq!(lcs_length(&chars("abc"), &chars("")), 0);
    assert_eq!(lcs_length(&chars("abc"), &chars("abc")), 3);
    assert_eq!(lcs_length(&chars("abc"), &chars("xyz")), 0);
    assert_eq!(lcs_length(&chars("a"), &chars("a")), 1);
    assert_eq!(lcs_length(&chars("AGGTAB"), &chars("GXTXAYB")), 4);
    assert_eq!(lcs_length(&chars("abcbdab"), &chars("bdcaba")), 4);
}

#[test]
fn lcs_similarity_of_kitten_and_sitting_is_four_sevenths() {
    let r = lcs_similarity("kitten", "sitting");
    assert_eq!(pair(r), (4, 7));
    assert!((value(r) - 0.5714285714285714).abs() < 1e-15);
}

#[test]
fn lcs_similarity_of_empty_texts_is_zero() {
    assert_eq!(pair(lcs_similarity("", "")), (0, 1));
    assert_eq!(pair(lcs_similarity("", "abc")), (0, 3));
    assert_eq!(pair(lcs_similarity("abc", "")), (0, 3));
}

#[test]
fn lcs_similarity_of_identical_texts_is_one() {
    assert_eq!(pair(lcs_similarity("cat", "cat")), (3, 3));
    assert!(lcs_similarity("a", "a").is_one());
    assert!(lcs_similarity("John's", "John's").is_one());
}

#[test]
fn lcs_similarity_is_symmetric() {
    let pairs = [
        ("kitten", "sitting"),
        ("John's", "Jane"),
        ("", "abc"),
        ("abcbdab", "bdcaba"),
    ];
    for (a, b) in pairs {
        assert_eq!(pair(lcs_similarity(a, b)), pair(lcs_similarity(b, a)));
    }
}

#[test]
fn lcs_similarity_divides_by_the_longer_length_in_characters() {
    // five characters against five, four in common
    assert_eq!(pair(lcs_similarity("h\u{e9}llo", "hello")), (4, 5));
    assert_eq!(pair(lcs_similarity("ab", "abcdefgh")), (2, 8));
}

#[test]
fn lcs_similarity_of_chars_agrees_with_the_text_form() {
    let r = lcs_similarity_of_chars(&chars("kitten"), &chars("sitting"));
    assert_eq!(pair(r), (4, 7));
    assert_eq!(pair(lcs_similarity_of_chars(&chars(""), &chars(""))), (0, 1));
}
