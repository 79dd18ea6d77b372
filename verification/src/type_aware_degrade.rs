//! Shared policy for a type-aware pass that could not run: continue with the
//! conservative syntactic findings unless `typeAware.require` is `complete`.
use vstd::prelude::*;
use crate::meta::{OutputFormat, TypeAwareMeta, TypeAwareRequire};
use crate::text::push_str;

verus! {

/// The warning text for a run that fell back to syntactic findings.
pub open spec fn degraded_text(root: Seq<char>, error: Seq<char>) -> Seq<char> {
    "type-aware refinement unavailable for "@ + root + ": "@ + error
        + "; showing conservative syntactic findings"@
}

/// Warning text for a run that fell back to syntactic findings.
pub fn degraded_message(root: &str, error: &str) -> (r: String)
    ensures
        r@ == degraded_text(root@, error@),
{
    let mut r = String::new();
    push_str(&mut r, "type-aware refinement unavailable for ");
    push_str(&mut r, root);
    push_str(&mut r, ": ");
    push_str(&mut r, error);
    push_str(&mut r, "; showing conservative syntactic findings");
    r
}

/// Metadata for a degraded pass: not executed, one warning carrying `message`.
pub fn degraded_meta(message: String, require: TypeAwareRequire) -> (m: TypeAwareMeta)
    ensures
        m.required_completeness == Some(require),
        !m.executed,
        m.warning_count == 1,
        m.warnings@.len() == 1,
        m.warnings@[0]@ == message@,
        m.identity is None,
        m.queries@.len() == 0,
        m.abstained_count == 0,
{
    let mut m = TypeAwareMeta::empty();
    m.required_completeness = Some(require);
    m.warning_count = 1;
    m.warnings.push(message);
    m
}

/// Inputs for [`degrade_or_fail`].
pub struct DegradeContext<'a> {
    /// Project root named in the warning.
    pub root: &'a str,
    /// Failure description from the type-aware pass.
    pub error: &'a str,
    /// Surface-specific prefix used for the `require = complete` hard error.
    pub failure_label: &'a str,
    /// Effective `typeAware.require` policy.
    pub require: TypeAwareRequire,
    /// Suppress the stderr warning.
    pub quiet: bool,
    /// Active output format, used to shape the hard error.
    pub output: OutputFormat,
}

/// Resolve a failed type-aware pass into degraded metadata, or, when
/// `require = complete`, into the hard error `<failure_label>: <error>` that the
/// caller reports with exit code 2.
pub fn degrade_or_fail(ctx: &DegradeContext) -> (r: Result<TypeAwareMeta, String>)
    ensures
        ctx.require == TypeAwareRequire::Complete <==> r is Err,
        r matches Err(e) ==> e@ == ctx.failure_label@ + ": "@ + ctx.error@,
        r matches Ok(m) ==> {
            &&& m.required_completeness == Some(ctx.require)
            &&& !m.executed
            &&& m.warning_count == 1
            &&& m.warnings@.len() == 1
            &&& m.warnings@[0]@ == degraded_text(ctx.root@, ctx.error@)
        },
{
    if ctx.require == TypeAwareRequire::Complete {
        let mut e = String::new();
        push_str(&mut e, ctx.failure_label);
        push_str(&mut e, ": ");
        push_str(&mut e, ctx.error);
        return Err(e);
    }
    let message = degraded_message(ctx.root, ctx.error);
    Ok(degraded_meta(message, ctx.require))
}

/// The stderr line a degraded pass prints, or `None` under `--quiet` or when
/// the pass fails hard instead.
pub fn degrade_warning(ctx: &DegradeContext) -> (r: Option<String>)
    ensures
        r is Some <==> (!ctx.quiet && ctx.require != TypeAwareRequire::Complete),
        r matches Some(w) ==> w@ == "Warning: "@ + degraded_text(ctx.root@, ctx.error@),
{
    if ctx.quiet || ctx.require == TypeAwareRequire::Complete {
        return None;
    }
    let message = degraded_message(ctx.root, ctx.error);
    let mut w = String::new();
    push_str(&mut w, "Warning: ");
    push_str(&mut w, message.as_str());
    Some(w)
}

} // verus!
