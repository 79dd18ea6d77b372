//! The clause a rendered CI body carries when its format cannot group.
use vstd::prelude::*;
use crate::text::push_str;

verus! {

/// The sentence for a body whose target dropped the requested grouping.
pub open spec fn grouping_clause(mode: Seq<char>) -> Seq<char> {
    "Grouping: --group-by "@ + mode
        + " was requested and this format renders one flat document; run --format json for the grouped envelope."@
}

/// One sentence for a body whose target dropped the requested grouping; the
/// caller decides whether to render it at all.
pub fn dropped_grouping_clause(mode: &str) -> (r: String)
    ensures
        r@ == grouping_clause(mode@),
{
    let mut r = String::new();
    push_str(&mut r, "Grouping: --group-by ");
    push_str(&mut r, mode);
    push_str(
        &mut r,
        " was requested and this format renders one flat document; run --format json for the grouped envelope.",
    );
    r
}

} // verus!
