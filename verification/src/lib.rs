//! String-similarity features for short texts such as name variants.
//!
//! Every metric is computed over the characters of its two inputs and is
//! returned as an exact fraction between zero and one.

pub mod chars;
pub mod features;
pub mod lcs;
pub mod ngram;
pub mod overlap;
pub mod possessive;
pub mod ratio;
