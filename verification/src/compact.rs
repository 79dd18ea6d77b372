//! The diagnostic line that compact output writes beside its finding records
//! when a type-aware run took part.
use vstd::prelude::*;
use crate::meta::{
    capability_label, capability_label_str, capability_labels, completeness_label,
    completeness_label_str, TypeAwareMeta,
};
use crate::semantic_queries::SemanticCapability;
use crate::text::{decimal, join_with, push_decimal, push_str};

verus! {

/// `true` or `false`.
pub open spec fn bool_text(b: bool) -> Seq<char> {
    if b {
        "true"@
    } else {
        "false"@
    }
}

/// The prefix naming the metadata, with the combined scope when there is one.
pub open spec fn context_prefix(scope: Option<Seq<char>>) -> Seq<char> {
    match scope {
        None => "type-aware"@,
        Some(s) => "type-aware["@ + s + "]"@,
    }
}

/// The completeness the identity records, or `unknown` without one.
pub open spec fn context_completeness(meta: TypeAwareMeta) -> Seq<char> {
    match meta.identity {
        Some(id) => completeness_label(id.completeness),
        None => "unknown"@,
    }
}

/// The capabilities the identity records, comma separated; empty without one.
pub open spec fn context_capabilities(meta: TypeAwareMeta) -> Seq<char> {
    match meta.identity {
        Some(id) => join_with(capability_labels(id.capabilities@), ","@),
        None => Seq::empty(),
    }
}

/// `label=<n>` preceded by a space.
pub open spec fn count_field(label: Seq<char>, n: usize) -> Seq<char> {
    " "@ + label + "="@ + decimal(n as nat)
}

/// The whole metadata line.
pub open spec fn type_aware_context(meta: TypeAwareMeta, scope: Option<Seq<char>>) -> Seq<char> {
    context_prefix(scope) + ":executed="@ + bool_text(meta.executed) + " backend="@ + meta.backend@
        + "@"@ + (match meta.backend_version {
        Some(v) => v@,
        None => "not-run"@,
    }) + " completeness="@ + context_completeness(meta) + " capabilities="@
        + context_capabilities(meta) + count_field("confirmed-used"@, meta.confirmed_used_count)
        + count_field("contract-preserved"@, meta.contract_preserved_count) + count_field(
        "no-static-references"@,
        meta.no_static_references_count,
    ) + count_field("fix-eligible"@, meta.fix_eligible_count) + count_field(
        "unresolved"@,
        meta.unresolved_count,
    ) + count_field("abstained"@, meta.abstained_count) + count_field(
        "warnings"@,
        meta.warning_count,
    )
}

/// Appends the labels of `caps` joined with `sep`.
fn push_capabilities(out: &mut String, caps: &Vec<SemanticCapability>, sep: &str)
    ensures
        final(out)@ == old(out)@ + join_with(capability_labels(caps@), sep@),
{
    let ghost start = out@;
    let ghost labels = capability_labels(caps@);
    let mut i: usize = 0;
    while i < caps.len()
        invariant
            i <= caps@.len(),
            labels == capability_labels(caps@),
            out@ == start + join_with(labels.take(i as int), sep@),
        decreases caps@.len() - i,
    {
        let ghost prev = out@;
        if i > 0 {
            push_str(out, sep);
        }
        push_str(out, capability_label_str(caps[i]));
        proof {
            let t = labels.take(i as int + 1);
            assert(t.drop_last() =~= labels.take(i as int));
            assert(t.last() == capability_label(caps@[i as int]));
            if i == 0 {
                assert(join_with(t, sep@) == t[0]);
                assert(out@ =~= start + join_with(t, sep@));
            } else {
                assert(out@ =~= start + join_with(t, sep@));
            }
        }
        i = i + 1;
    }
    assert(labels.take(caps@.len() as int) =~= labels);
}

/// Appends ` label=<n>`.
fn push_count(out: &mut String, label: &str, n: usize)
    ensures
        final(out)@ == old(out)@ + count_field(label@, n),
{
    push_str(out, " ");
    push_str(out, label);
    push_str(out, "=");
    push_decimal(out, n as u64);
    assert(final(out)@ =~= old(out)@ + count_field(label@, n));
}

/// The one-line summary of a type-aware run that compact output writes to
/// stderr, so that compact parsers never take it for a finding.
pub fn format_type_aware_metadata(meta: &TypeAwareMeta, scope: Option<&str>) -> (r: String)
    ensures
        r@ == type_aware_context(
            *meta,
            match scope {
                Some(s) => Some(s@),
                None => None,
            },
        ),
{
    let ghost sc: Option<Seq<char>> = match scope {
        Some(s) => Some(s@),
        None => None,
    };
    let mut out = String::new();
    match scope {
        Some(s) => {
            push_str(&mut out, "type-aware[");
            push_str(&mut out, s);
            push_str(&mut out, "]");
        },
        None => push_str(&mut out, "type-aware"),
    }
    assert(out@ =~= context_prefix(sc));
    push_str(&mut out, ":executed=");
    if meta.executed {
        push_str(&mut out, "true");
    } else {
        push_str(&mut out, "false");
    }
    push_str(&mut out, " backend=");
    push_str(&mut out, meta.backend.as_str());
    push_str(&mut out, "@");
    match &meta.backend_version {
        Some(v) => push_str(&mut out, v.as_str()),
        None => push_str(&mut out, "not-run"),
    }
    let ghost version: Seq<char> = match &meta.backend_version {
        Some(v) => v@,
        None => "not-run"@,
    };
    assert(out@ =~= context_prefix(sc) + ":executed="@ + bool_text(meta.executed) + " backend="@
        + meta.backend@ + "@"@ + version);
    push_str(&mut out, " completeness=");
    match &meta.identity {
        Some(id) => push_str(&mut out, completeness_label_str(id.completeness)),
        None => push_str(&mut out, "unknown"),
    }
    assert(out@ =~= context_prefix(sc) + ":executed="@ + bool_text(meta.executed) + " backend="@
        + meta.backend@ + "@"@ + version + " completeness="@ + context_completeness(*meta));
    push_str(&mut out, " capabilities=");
    match &meta.identity {
        Some(id) => push_capabilities(&mut out, &id.capabilities, ","),
        None => {},
    }
    assert(out@ =~= context_prefix(sc) + ":executed="@ + bool_text(meta.executed) + " backend="@
        + meta.backend@ + "@"@ + version + " completeness="@ + context_completeness(*meta)
        + " capabilities="@ + context_capabilities(*meta));
    push_count(&mut out, "confirmed-used", meta.confirmed_used_count);
    push_count(&mut out, "contract-preserved", meta.contract_preserved_count);
    push_count(&mut out, "no-static-references", meta.no_static_references_count);
    push_count(&mut out, "fix-eligible", meta.fix_eligible_count);
    push_count(&mut out, "unresolved", meta.unresolved_count);
    push_count(&mut out, "abstained", meta.abstained_count);
    push_count(&mut out, "warnings", meta.warning_count);
    assert(out@ =~= type_aware_context(*meta, sc));
    out
}

} // verus!
