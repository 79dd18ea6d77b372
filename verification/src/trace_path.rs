//! `fallow trace --path <FROM> <TO>`: the human rendering of the shortest
//! import path between two modules, and the refusal of an endpoint that names
//! no module.
//!
//! An unreachable pair is an answer (`reachable: no`), not an error.
use vstd::prelude::*;
use crate::text::{decimal, push_decimal, push_str, string_views_of};

verus! {

/// One import edge of the path.
#[derive(Debug)]
pub struct ImportHop {
    pub from: String,
    pub to: String,
    /// The line of the importing binding, in the importing file.
    pub import_line: Option<u64>,
    pub type_only: bool,
    pub dynamic: bool,
}

/// The shortest import path between two modules.
#[derive(Debug)]
pub struct ImportPathTrace {
    pub from: String,
    pub to: String,
    pub reachable: bool,
    pub hops: usize,
    pub path: Vec<ImportHop>,
    pub reason: String,
}

/// Which endpoint named no module, or named several.
#[derive(Debug, Clone, Copy, PartialEq, Eq)]
pub enum ImportPathEndpoint {
    From,
    To,
    AmbiguousFrom,
    AmbiguousTo,
}

/// The hint that follows an endpoint refusal.
pub const ENDPOINT_HINT: &'static str =
    "pass a path relative to the project root; `fallow list --files` prints every file the run discovered";

/// The refusal of an endpoint: `label` is the endpoint's own name for itself,
/// and the value shown is the one the caller passed for that endpoint.
pub open spec fn endpoint_error_text(
    endpoint: ImportPathEndpoint,
    label: Seq<char>,
    from: Seq<char>,
    to: Seq<char>,
) -> Seq<char> {
    "--path "@ + label + " module '"@ + (match endpoint {
        ImportPathEndpoint::From | ImportPathEndpoint::AmbiguousFrom => from,
        ImportPathEndpoint::To | ImportPathEndpoint::AmbiguousTo => to,
    }) + "' "@ + (match endpoint {
        ImportPathEndpoint::AmbiguousFrom | ImportPathEndpoint::AmbiguousTo =>
            "matches multiple modules; use the full project-relative path"@,
        ImportPathEndpoint::From | ImportPathEndpoint::To => "not found in module graph"@,
    })
}

/// The message refusing an endpoint that names no module or several.
pub fn endpoint_error(endpoint: ImportPathEndpoint, label: &str, from: &str, to: &str) -> (r: String)
    ensures
        r@ == endpoint_error_text(endpoint, label@, from@, to@),
{
    let mut m = String::new();
    push_str(&mut m, "--path ");
    push_str(&mut m, label);
    push_str(&mut m, " module '");
    match endpoint {
        ImportPathEndpoint::From | ImportPathEndpoint::AmbiguousFrom => push_str(&mut m, from),
        ImportPathEndpoint::To | ImportPathEndpoint::AmbiguousTo => push_str(&mut m, to),
    }
    push_str(&mut m, "' ");
    match endpoint {
        ImportPathEndpoint::AmbiguousFrom | ImportPathEndpoint::AmbiguousTo => push_str(
            &mut m,
            "matches multiple modules; use the full project-relative path",
        ),
        ImportPathEndpoint::From | ImportPathEndpoint::To => push_str(
            &mut m,
            "not found in module graph",
        ),
    }
    assert(m@ =~= endpoint_error_text(endpoint, label@, from@, to@));
    m
}

/// `  [n] from[:line] -> to[ [type-only]| [dynamic]]`, numbered from one; the
/// line belongs to the importing file.
pub open spec fn hop_line(n: nat, hop: ImportHop) -> Seq<char> {
    "  ["@ + decimal(n) + "] "@ + hop.from@ + (match hop.import_line {
        Some(l) => ":"@ + decimal(l as nat),
        None => Seq::empty(),
    }) + " -> "@ + hop.to@ + (if hop.type_only {
        " [type-only]"@
    } else if hop.dynamic {
        " [dynamic]"@
    } else {
        Seq::empty()
    })
}

/// The hop lines of the first `n` hops.
pub open spec fn hop_lines(path: Seq<ImportHop>, n: nat) -> Seq<Seq<char>>
    decreases n,
{
    if n == 0 {
        Seq::empty()
    } else {
        hop_lines(path, (n - 1) as nat).push(hop_line(n, path[n - 1]))
    }
}

/// The whole human rendering. `hops: 0` means both "same module" and "no
/// route", so `reachable` is printed on its own line and an empty path says
/// which of the two it is.
pub open spec fn trace_path_lines(t: ImportPathTrace, quiet: bool, eager_only: bool) -> Seq<
    Seq<char>,
> {
    seq![
        if eager_only {
            "Shortest eager import path (static value imports only; syntactic)"@
        } else {
            "Shortest import path (syntactic; OFF the ranked path)"@
        },
        Seq::empty(),
        "  from:      "@ + t.from@,
        "  to:        "@ + t.to@,
        "  reachable: "@ + (if t.reachable {
            "yes"@
        } else {
            "no"@
        }),
        "  hops:      "@ + decimal(t.hops as nat),
        Seq::empty(),
    ] + (if t.path@.len() == 0 {
        seq![
            if t.reachable {
                "Same module: no import hop needed."@
            } else {
                "No import path."@
            },
        ]
    } else {
        hop_lines(t.path@, t.path@.len())
    }) + (if quiet {
        Seq::empty()
    } else {
        seq![Seq::empty(), t.reason@]
    })
}

/// Appends a line.
fn push_line(lines: &mut Vec<String>, s: String)
    ensures
        string_views_of(final(lines)@) == string_views_of(old(lines)@).push(s@),
{
    let ghost v = s@;
    lines.push(s);
    assert(string_views_of(lines@) =~= string_views_of(old(lines)@).push(v));
}

/// `prefix` followed by `value`, as a new line.
fn push_field(lines: &mut Vec<String>, prefix: &str, value: &str)
    ensures
        string_views_of(final(lines)@) == string_views_of(old(lines)@).push(prefix@ + value@),
{
    let mut s = String::new();
    push_str(&mut s, prefix);
    push_str(&mut s, value);
    push_line(lines, s);
}

/// The line of hop number `n`.
fn hop_string(n: usize, hop: &ImportHop) -> (r: String)
    ensures
        r@ == hop_line(n as nat, *hop),
{
    let mut s = String::new();
    push_str(&mut s, "  [");
    push_decimal(&mut s, n as u64);
    push_str(&mut s, "] ");
    push_str(&mut s, hop.from.as_str());
    match hop.import_line {
        Some(l) => {
            push_str(&mut s, ":");
            push_decimal(&mut s, l);
        },
        None => {},
    }
    push_str(&mut s, " -> ");
    push_str(&mut s, hop.to.as_str());
    if hop.type_only {
        push_str(&mut s, " [type-only]");
    } else if hop.dynamic {
        push_str(&mut s, " [dynamic]");
    }
    assert(s@ =~= hop_line(n as nat, *hop));
    s
}

/// The human rendering of an import-path trace, line by line; `quiet` drops
/// the closing prose.
pub fn human_lines(trace: &ImportPathTrace, quiet: bool, eager_only: bool) -> (r: Vec<String>)
    ensures
        string_views_of(r@) == trace_path_lines(*trace, quiet, eager_only),
{
    let mut lines: Vec<String> = Vec::new();
    if eager_only {
        push_field(&mut lines, "Shortest eager import path (static value imports only; syntactic)", "");
    } else {
        push_field(&mut lines, "Shortest import path (syntactic; OFF the ranked path)", "");
    }
    push_line(&mut lines, String::new());
    push_field(&mut lines, "  from:      ", trace.from.as_str());
    push_field(&mut lines, "  to:        ", trace.to.as_str());
    if trace.reachable {
        push_field(&mut lines, "  reachable: ", "yes");
    } else {
        push_field(&mut lines, "  reachable: ", "no");
    }
    let mut hops = String::new();
    push_str(&mut hops, "  hops:      ");
    push_decimal(&mut hops, trace.hops as u64);
    push_line(&mut lines, hops);
    push_line(&mut lines, String::new());
    let ghost head = string_views_of(lines@);
    if trace.path.len() == 0 {
        if trace.reachable {
            push_field(&mut lines, "Same module: no import hop needed.", "");
        } else {
            push_field(&mut lines, "No import path.", "");
        }
    } else {
        let ghost path = trace.path@;
        let mut i: usize = 0;
        while i < trace.path.len()
            invariant
                i <= path.len(),
                path == trace.path@,
                string_views_of(lines@) == head + hop_lines(path, i as nat),
            decreases path.len() - i,
        {
            push_line(&mut lines, hop_string(i + 1, &trace.path[i]));
            proof {
                assert(head + hop_lines(path, (i + 1) as nat) =~= (head + hop_lines(
                    path,
                    i as nat,
                )).push(hop_line((i + 1) as nat, path[i as int])));
            }
            i = i + 1;
        }
    }
    if !quiet {
        push_line(&mut lines, String::new());
        push_field(&mut lines, "", trace.reason.as_str());
    }
    proof {
        reveal_strlit("");
    }
    assert(string_views_of(lines@) =~= trace_path_lines(*trace, quiet, eager_only));
    lines
}

} // verus!
