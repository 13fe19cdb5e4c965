//! A per-language text-analysis filter for search indexing pipelines.
//!
//! A [`filter::Filter`] bundles a Snowball stemmer with a case-folded
//! stop-word set.  Once built it is immutable and exposes three
//! transformations over token sequences: stemming, stop-word removal,
//! and both combined (stop words are always removed before stemming).

pub mod filter;
pub mod lang;
pub mod laws;
pub mod stemmer;
pub mod stopwords;
