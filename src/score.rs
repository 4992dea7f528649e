use vstd::prelude::*;

verus! {

/// Every score is a fixed-point fraction in millionths: `SCALE` stands for 1.
pub const SCALE: u64 = 1000000;

/// The longest token sequence the metrics accept; it keeps every product of
/// the weighted cosine inside 128 bits.
pub const MAX_TOKENS: usize = 1000000;

} // verus!
