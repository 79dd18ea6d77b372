//! Scannable status prefixes for human output.
use vstd::prelude::*;
use crate::meta::{SemanticCompleteness, TypeAwareMeta};
use crate::text::push_str;

verus! {

/// The three states a human status line can report.
#[derive(Debug, Clone, Copy, PartialEq, Eq, Structural)]
pub enum HumanStatus {
    Healthy,
    Warning,
    Inactive,
}

/// The bracketed prefix of a status.
pub open spec fn status_prefix(status: HumanStatus) -> Seq<char> {
    match status {
        HumanStatus::Healthy => "[OK]"@,
        HumanStatus::Warning => "[W]"@,
        HumanStatus::Inactive => "[-]"@,
    }
}

impl HumanStatus {
    pub fn prefix(self) -> (r: &'static str)
        ensures
            r@ == status_prefix(self),
    {
        match self {
            HumanStatus::Healthy => "[OK]",
            HumanStatus::Warning => "[W]",
            HumanStatus::Inactive => "[-]",
        }
    }
}

/// `<prefix> <message>`.
pub fn line(status: HumanStatus, message: &str) -> (r: String)
    ensures
        r@ == status_prefix(status) + seq![' '] + message@,
{
    let mut r = String::new();
    push_str(&mut r, status.prefix());
    r.push(' ');
    push_str(&mut r, message);
    assert(r@ =~= status_prefix(status) + seq![' '] + message@);
    r
}

/// The status a semantic completeness reads as.
pub open spec fn semantic_status_spec(status: SemanticCompleteness) -> HumanStatus {
    match status {
        SemanticCompleteness::Complete => HumanStatus::Healthy,
        SemanticCompleteness::Partial => HumanStatus::Warning,
        SemanticCompleteness::Unavailable => HumanStatus::Inactive,
    }
}

pub fn semantic_status(status: SemanticCompleteness) -> (r: HumanStatus)
    ensures
        r == semantic_status_spec(status),
{
    match status {
        SemanticCompleteness::Complete => HumanStatus::Healthy,
        SemanticCompleteness::Partial => HumanStatus::Warning,
        SemanticCompleteness::Unavailable => HumanStatus::Inactive,
    }
}

/// Whether the identity or some query of `meta` reached completeness `c`.
pub open spec fn meta_has(meta: TypeAwareMeta, c: SemanticCompleteness) -> bool {
    (meta.identity matches Some(id) && id.completeness == c) || exists|i: int|
        0 <= i < meta.queries@.len() && #[trigger] meta.queries@[i].status == c
}

/// Inactive when anything was unavailable, a warning when anything was partial
/// or some query abstained, and OK otherwise.
pub open spec fn meta_status(meta: TypeAwareMeta) -> HumanStatus {
    if meta_has(meta, SemanticCompleteness::Unavailable) {
        HumanStatus::Inactive
    } else if meta_has(meta, SemanticCompleteness::Partial) || meta.abstained_count > 0 {
        HumanStatus::Warning
    } else {
        HumanStatus::Healthy
    }
}

fn has_completeness(meta: &TypeAwareMeta, c: SemanticCompleteness) -> (r: bool)
    ensures
        r == meta_has(*meta, c),
{
    if let Some(id) = &meta.identity {
        if id.completeness == c {
            return true;
        }
    }
    let mut i: usize = 0;
    while i < meta.queries.len()
        invariant
            i <= meta.queries@.len(),
            forall|j: int| 0 <= j < i ==> meta.queries@[j].status != c,
        decreases meta.queries@.len() - i,
    {
        if meta.queries[i].status == c {
            return true;
        }
        i = i + 1;
    }
    false
}

/// The status a type-aware run's metadata reads as.
pub fn type_aware_meta_status(meta: &TypeAwareMeta) -> (r: HumanStatus)
    ensures
        r == meta_status(*meta),
{
    if has_completeness(meta, SemanticCompleteness::Unavailable) {
        return HumanStatus::Inactive;
    }
    if has_completeness(meta, SemanticCompleteness::Partial) || meta.abstained_count > 0 {
        return HumanStatus::Warning;
    }
    HumanStatus::Healthy
}

} // verus!
