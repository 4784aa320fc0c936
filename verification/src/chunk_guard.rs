//! Batch-wide decision whether an incoming batch must be summarized before
//! embedding.
//!
//! The policy is deliberately all-or-nothing: if any single unit exceeds the
//! soft character limit, the whole batch is routed through summarization,
//! including units that were already within limits.

use vstd::prelude::*;
use vstd::string::StrSliceExecFns;

verus! {

/// A text unit whose character count exceeds this soft limit is considered
/// too large to embed directly.
pub const CHAR_SOFT_LIMIT: usize = 20000;

/// A unit is oversized when its character count exceeds the soft limit.
pub open spec fn oversized(unit: Seq<char>) -> bool {
    unit.len() > CHAR_SOFT_LIMIT
}

/// A batch triggers summarization when at least one of its units is oversized.
pub open spec fn any_oversized(units: Seq<String>) -> bool {
    exists|i: int| 0 <= i < units.len() && oversized(units[i]@)
}

/// Decides whether the batch must be summarized before embedding: true iff
/// at least one unit's character count exceeds `CHAR_SOFT_LIMIT`.
pub fn needs_summarization(units: &Vec<String>) -> (r: bool)
    ensures
        r == any_oversized(units@),
{
    let mut i: usize = 0;
    while i < units.len()
        invariant
            0 <= i <= units@.len(),
            forall|j: int| 0 <= j < i ==> !oversized(units@[j]@),
        decreases units@.len() - i,
    {
        if units[i].as_str().unicode_len() > CHAR_SOFT_LIMIT {
            return true;
        }
        i = i + 1;
    }
    false
}

/// Selects the texts actually embedded: the per-unit summaries when the batch
/// triggered summarization, the original units unchanged otherwise.
pub fn normalize_batch(units: Vec<String>, summaries: Vec<String>) -> (r: Vec<String>)
    requires
        any_oversized(units@) ==> summaries@.len() == units@.len(),
    ensures
        r@ == if any_oversized(units@) {
            summaries@
        } else {
            units@
        },
{
    if needs_summarization(&units) {
        summaries
    } else {
        units
    }
}

/// With every unit at or below the soft limit, summarization is not
/// triggered, so `normalize_batch` passes the units through unchanged.
pub proof fn lemma_within_limit_passes_through(units: Seq<String>)
    requires
        forall|i: int| 0 <= i < units.len() ==> units[i]@.len() <= CHAR_SOFT_LIMIT,
    ensures
        !any_oversized(units),
{
}

} // verus!
