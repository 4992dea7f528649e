//! Structural similarity of C submissions.
//!
//! Source text is normalised (`normalize`), parsed (`syntax`) and reduced to a
//! sequence of semantic token categories (`tree`, `analysis`), and compared with four
//! metrics (`edit`, `jaccard`, `lcs`, `cosine`) combined in `similarity`.
//! `corpus` compares every pair of files of an assignment and records flags
//! on the students' results (`report`). Scores are fixed-point fractions in
//! millionths (`score`). `laws` states the properties the metrics obey.
//! The remaining modules hold the rules of the grading workflow around the
//! comparison: submission records (`models`, `submissions`, `client`), the
//! exercise platform's class report (`beecrowd`) and file naming (`naming`,
//! `archive`).
use vstd::prelude::*;

pub mod score;
pub mod token;
pub mod text;
pub mod edit;
pub mod jaccard;
pub mod lcs;
pub mod cosine;
pub mod similarity;
pub mod normalize;
pub mod tree;
pub mod syntax;
pub mod analysis;
pub mod models;
pub mod report;
pub mod corpus;
pub mod laws;
pub mod client;
pub mod submissions;
pub mod beecrowd;
pub mod naming;
pub mod archive;

verus! {

} // verus!
