//! What CI surfaces share about a type-aware run whose completeness was
//! required.
use vstd::prelude::*;
use crate::meta::{SemanticCompleteness, TypeAwareMeta, TypeAwareRequire};

verus! {

/// The status note a CI surface carries when a required type-aware run did
/// not complete.
pub const TYPE_AWARE_INCOMPLETE_MESSAGE: &'static str =
    "Required type-aware analysis was incomplete; this result is not a clean semantic report.";

/// Some query of `meta` did not complete.
pub open spec fn some_query_incomplete(meta: TypeAwareMeta) -> bool {
    exists|i: int|
        0 <= i < meta.queries@.len() && #[trigger] meta.queries@[i].status
            != SemanticCompleteness::Complete
}

/// Completeness was required and the identity is missing, the identity is not
/// complete, or some query is not complete.
pub open spec fn required_incomplete(meta: TypeAwareMeta) -> bool {
    &&& meta.required_completeness == Some(TypeAwareRequire::Complete)
    &&& (match meta.identity {
        None => true,
        Some(id) => id.completeness != SemanticCompleteness::Complete,
    } || some_query_incomplete(meta))
}

/// Whether a run that had to be complete fell short; without metadata nothing
/// was required.
#[verifier::loop_isolation(false)]
pub fn required_type_aware_incomplete(meta: Option<&TypeAwareMeta>) -> (r: bool)
    ensures
        r == match meta {
            None => false,
            Some(m) => required_incomplete(*m),
        },
{
    let m = match meta {
        None => return false,
        Some(m) => m,
    };
    let required = match m.required_completeness {
        Some(TypeAwareRequire::Complete) => true,
        _ => false,
    };
    if !required {
        return false;
    }
    match &m.identity {
        None => return true,
        Some(id) => {
            match id.completeness {
                SemanticCompleteness::Complete => {},
                _ => return true,
            }
        },
    }
    let mut i: usize = 0;
    while i < m.queries.len()
        invariant
            i <= m.queries@.len(),
            forall|j: int| 0 <= j < i ==> m.queries@[j].status == SemanticCompleteness::Complete,
        decreases m.queries@.len() - i,
    {
        match m.queries[i].status {
            SemanticCompleteness::Complete => {},
            _ => {
                assert(m.queries@[i as int].status != SemanticCompleteness::Complete);
                return true;
            },
        }
        i = i + 1;
    }
    false
}

} // verus!
