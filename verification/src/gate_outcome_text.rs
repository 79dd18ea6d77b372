//! One reader for an envelope's per-check outcomes, shared by every surface
//! that reports them: a summary sentence, a notice annotation, and one
//! decision-surface row per armed check. Names and statuses form an open set,
//! so an unknown status never counts as a pass and an unknown name still gets
//! a readable label.
use vstd::prelude::*;
use crate::pr_comment::PrDecisionConclusion;
use crate::text::{char_uppercase, uppercase_of, chars_of, join_strings, join_with, push_str, replace_char, replace_char_str, str_eq, string_views_of};

verus! {

/// A gate entry as the envelope holds it; an entry without a text status or a
/// boolean `enforced` is not a gate line.
pub struct GateEntry {
    pub name: String,
    pub status: Option<String>,
    pub enforced: Option<bool>,
    /// The observed value, already rendered (whole numbers without `.0`).
    pub observed: Option<String>,
    /// The threshold, already rendered.
    pub threshold: Option<String>,
    pub threshold_label: Option<String>,
}

/// One gate's verdict.
pub struct GateLine {
    pub name: String,
    pub status: String,
    pub enforced: bool,
    pub observed: Option<String>,
    pub threshold: Option<String>,
    pub threshold_label: Option<String>,
}

/// The entries that are gate lines, in order.
pub open spec fn gate_entries_kept(es: Seq<GateEntry>) -> Seq<GateEntry>
    decreases es.len(),
{
    if es.len() == 0 {
        Seq::empty()
    } else if es.last().status is Some && es.last().enforced is Some {
        gate_entries_kept(es.drop_last()).push(es.last())
    } else {
        gate_entries_kept(es.drop_last())
    }
}

fn copy_string(s: &String) -> (r: String)
    ensures
        r@ == s@,
{
    let mut r = String::new();
    push_str(&mut r, s.as_str());
    assert(r@ =~= s@);
    r
}

fn copy_opt(s: &Option<String>) -> (r: Option<String>)
    ensures
        match (r, *s) {
            (Some(a), Some(b)) => a@ == b@,
            (None, None) => true,
            _ => false,
        },
{
    match s {
        Some(x) => Some(copy_string(x)),
        None => None,
    }
}

/// Two optional strings with the same text.
pub open spec fn same_text(a: Option<String>, b: Option<String>) -> bool {
    match (a, b) {
        (Some(x), Some(y)) => x@ == y@,
        (None, None) => true,
        _ => false,
    }
}

/// `l` is the line read from entry `e`.
pub open spec fn line_of(l: GateLine, e: GateEntry) -> bool {
    &&& e.status matches Some(s) && l.status@ == s@
    &&& e.enforced == Some(l.enforced)
    &&& l.name@ == e.name@
    &&& same_text(l.observed, e.observed)
    &&& same_text(l.threshold, e.threshold)
    &&& same_text(l.threshold_label, e.threshold_label)
}

/// The lines read from the entries, in wire order.
pub fn read_gate_lines(entries: &Vec<GateEntry>) -> (r: Vec<GateLine>)
    ensures
        r@.len() == gate_entries_kept(entries@).len(),
        forall|i: int| 0 <= i < r@.len() ==> line_of(#[trigger] r@[i], gate_entries_kept(entries@)[i]),
{
    let ghost es = entries@;
    let mut out: Vec<GateLine> = Vec::new();
    let mut i: usize = 0;
    assert(es.take(0) =~= Seq::<GateEntry>::empty());
    while i < entries.len()
        invariant
            es == entries@,
            i <= es.len(),
            out@.len() == gate_entries_kept(es.take(i as int)).len(),
            forall|k: int| 0 <= k < out@.len() ==> line_of(#[trigger] out@[k], gate_entries_kept(es.take(i as int))[k]),
        decreases es.len() - i,
    {
        let ghost t = es.take(i as int + 1);
        proof {
            assert(t.drop_last() =~= es.take(i as int));
            assert(t.last() == es[i as int]);
        }
        let e = &entries[i];
        match (&e.status, e.enforced) {
            (Some(status), Some(enforced)) => {
                let line = GateLine {
                    name: copy_string(&e.name),
                    status: copy_string(status),
                    enforced,
                    observed: copy_opt(&e.observed),
                    threshold: copy_opt(&e.threshold),
                    threshold_label: copy_opt(&e.threshold_label),
                };
                let ghost before = out@;
                out.push(line);
                proof {
                    assert forall|k: int| 0 <= k < out@.len() implies line_of(#[trigger] out@[k], gate_entries_kept(t)[k]) by {
                        if k < before.len() {
                            assert(out@[k] == before[k]);
                        }
                    }
                }
            },
            _ => {},
        }
        i = i + 1;
    }
    assert(es.take(es.len() as int) =~= es);
    out
}

/// How a gate's status sorts it: failed, warned (also any unknown status),
/// stood down, or passed.
#[derive(Debug, Clone, Copy, PartialEq, Eq, Structural)]
pub enum GateClass {
    Failed,
    Warned,
    Skipped,
    Passed,
}

/// The class of a status.
pub open spec fn class_of(status: Seq<char>) -> GateClass {
    if status == "fail"@ {
        GateClass::Failed
    } else if status == "skipped"@ {
        GateClass::Skipped
    } else if status == "pass"@ {
        GateClass::Passed
    } else {
        GateClass::Warned
    }
}

fn classify(status: &str) -> (r: GateClass)
    ensures
        r == class_of(status@),
{
    if str_eq(status, "fail") {
        GateClass::Failed
    } else if str_eq(status, "skipped") {
        GateClass::Skipped
    } else if str_eq(status, "pass") {
        GateClass::Passed
    } else {
        GateClass::Warned
    }
}

/// What a gate compared, as the trailing clause of its description.
pub open spec fn measured_clause(g: GateLine) -> Seq<char> {
    match (g.observed, g.threshold, g.threshold_label) {
        (Some(o), Some(t), _) => " ("@ + o@ + " against "@ + t@ + ")"@,
        (Some(o), None, Some(l)) => " ("@ + o@ + " at or above "@ + l@ + ")"@,
        (Some(o), None, None) => " ("@ + o@ + ")"@,
        _ => Seq::empty(),
    }
}

/// A gate's name and what it compared.
pub open spec fn described(g: GateLine) -> Seq<char> {
    g.name@ + measured_clause(g)
}

/// The descriptions of the gates of class `c`, in order.
pub open spec fn class_descriptions(gs: Seq<GateLine>, c: GateClass) -> Seq<Seq<char>>
    decreases gs.len(),
{
    if gs.len() == 0 {
        Seq::empty()
    } else if class_of(gs.last().status@) == c {
        class_descriptions(gs.drop_last(), c).push(described(gs.last()))
    } else {
        class_descriptions(gs.drop_last(), c)
    }
}

/// Whether some failed gate is enforced.
pub open spec fn any_enforced_failure(gs: Seq<GateLine>) -> bool {
    exists|i: int| 0 <= i < gs.len() && class_of(gs[i].status@) == GateClass::Failed && #[trigger] gs[i].enforced
}

/// The clause of one class, when it has gates.
pub open spec fn class_clause(gs: Seq<GateLine>, c: GateClass, lead: Seq<char>) -> Seq<Seq<char>> {
    if class_descriptions(gs, c).len() == 0 {
        Seq::empty()
    } else {
        seq![lead + join_with(class_descriptions(gs, c), ", "@) + if c == GateClass::Failed && !any_enforced_failure(gs) {
            " (none of which fails this run)"@
        } else {
            Seq::empty()
        }]
    }
}

/// The inventory line: the failed, warned, stood-down and passed gates, each
/// named with what it compared.
pub open spec fn summary_text(gs: Seq<GateLine>) -> Seq<char> {
    "Gate outcomes: "@ + join_with(
        class_clause(gs, GateClass::Failed, "failed "@) + class_clause(gs, GateClass::Warned, "warned "@)
            + class_clause(gs, GateClass::Skipped, "stood down "@) + class_clause(gs, GateClass::Passed, "passed "@),
        "; "@,
    ) + "."@
}

fn describe(g: &GateLine) -> (r: String)
    ensures
        r@ == described(*g),
{
    let mut r = String::new();
    push_str(&mut r, g.name.as_str());
    match (&g.observed, &g.threshold, &g.threshold_label) {
        (Some(o), Some(t), _) => {
            push_str(&mut r, " (");
            push_str(&mut r, o.as_str());
            push_str(&mut r, " against ");
            push_str(&mut r, t.as_str());
            push_str(&mut r, ")");
        },
        (Some(o), None, Some(l)) => {
            push_str(&mut r, " (");
            push_str(&mut r, o.as_str());
            push_str(&mut r, " at or above ");
            push_str(&mut r, l.as_str());
            push_str(&mut r, ")");
        },
        (Some(o), None, None) => {
            push_str(&mut r, " (");
            push_str(&mut r, o.as_str());
            push_str(&mut r, ")");
        },
        _ => {},
    }
    assert(r@ =~= described(*g));
    r
}

/// The clause of class `c`, if it has gates.
fn class_clause_exec(gates: &Vec<GateLine>, c: GateClass, lead: &str) -> (r: Option<String>)
    ensures
        match r {
            Some(s) => class_clause(gates@, c, lead@) == seq![s@],
            None => class_clause(gates@, c, lead@).len() == 0,
        },
{
    let ghost gs = gates@;
    let mut names: Vec<String> = Vec::new();
    let mut enforced = false;
    let mut i: usize = 0;
    assert(gs.take(0) =~= Seq::<GateLine>::empty());
    while i < gates.len()
        invariant
            gs == gates@,
            i <= gs.len(),
            string_views_of(names@) == class_descriptions(gs.take(i as int), c),
            enforced <==> exists|k: int| 0 <= k < i && class_of(gs[k].status@) == GateClass::Failed && #[trigger] gs[k].enforced,
        decreases gs.len() - i,
    {
        let ghost t = gs.take(i as int + 1);
        proof {
            assert(t.drop_last() =~= gs.take(i as int));
            assert(t.last() == gs[i as int]);
        }
        let g = &gates[i];
        let k = classify(g.status.as_str());
        if k == c {
            let d = describe(g);
            names.push(d);
        }
        if k == GateClass::Failed && g.enforced {
            enforced = true;
        }
        assert(string_views_of(names@) =~= class_descriptions(t, c));
        i = i + 1;
    }
    assert(gs.take(gs.len() as int) =~= gs);
    if names.len() == 0 {
        return None;
    }
    let mut r = String::new();
    push_str(&mut r, lead);
    let joined = join_strings(&names, ", ");
    push_str(&mut r, joined.as_str());
    if c == GateClass::Failed && !enforced {
        push_str(&mut r, " (none of which fails this run)");
    }
    proof {
        reveal_strlit(", ");
    }
    assert(class_clause(gs, c, lead@) =~= seq![r@]);
    Some(r)
}

/// The one-line verdict for the job summary, the pull-request comment and the
/// merge-request note, or `None` when the run armed no gate. It is an
/// inventory, not a verdict of its own: whether a tripped gate fails the build
/// is the integration's decision.
pub fn summary_line(gates: &Vec<GateLine>) -> (r: Option<String>)
    ensures
        gates@.len() == 0 <==> r is None,
        r matches Some(s) ==> s@ == summary_text(gates@),
{
    if gates.len() == 0 {
        return None;
    }
    let mut clauses: Vec<String> = Vec::new();
    let ghost mut cs: Seq<Seq<char>> = Seq::empty();
    let failed = class_clause_exec(gates, GateClass::Failed, "failed ");
    if let Some(c) = failed {
        clauses.push(c);
    }
    let warned = class_clause_exec(gates, GateClass::Warned, "warned ");
    if let Some(c) = warned {
        clauses.push(c);
    }
    let skipped = class_clause_exec(gates, GateClass::Skipped, "stood down ");
    if let Some(c) = skipped {
        clauses.push(c);
    }
    let passed = class_clause_exec(gates, GateClass::Passed, "passed ");
    if let Some(c) = passed {
        clauses.push(c);
    }
    assert(string_views_of(clauses@) =~= class_clause(gates@, GateClass::Failed, "failed "@) + class_clause(gates@, GateClass::Warned, "warned "@)
        + class_clause(gates@, GateClass::Skipped, "stood down "@) + class_clause(gates@, GateClass::Passed, "passed "@));
    let body = join_strings(&clauses, "; ");
    let mut r = String::new();
    push_str(&mut r, "Gate outcomes: ");
    push_str(&mut r, body.as_str());
    push_str(&mut r, ".");
    assert(r@ =~= summary_text(gates@));
    Some(r)
}

/// The same verdict as a GitHub workflow-command annotation: always a notice,
/// never an error, since the render cannot know whether the consumer armed
/// each check itself.
pub fn annotation_line(gates: &Vec<GateLine>) -> (r: Option<String>)
    ensures
        gates@.len() == 0 <==> r is None,
        r matches Some(s) ==> s@ == "::notice::Fallow: "@ + summary_text(gates@),
{
    match summary_line(gates) {
        Some(line) => {
            let mut r = String::new();
            push_str(&mut r, "::notice::Fallow: ");
            push_str(&mut r, line.as_str());
            Some(r)
        },
        None => None,
    }
}


/// The conclusion a gate's row publishes: an enforced failure fails, a pass
/// succeeds, a stood-down gate is skipped, and anything else (a warning, an
/// unenforced failure, an unknown status) is neutral.
pub open spec fn row_status_of(g: GateLine) -> PrDecisionConclusion {
    if g.status@ == "fail"@ && g.enforced {
        PrDecisionConclusion::Failure
    } else if g.status@ == "pass"@ {
        PrDecisionConclusion::Success
    } else if g.status@ == "skipped"@ {
        PrDecisionConclusion::Skipped
    } else {
        PrDecisionConclusion::Neutral
    }
}

/// The conclusion a gate's row publishes.
pub fn row_status(g: &GateLine) -> (r: PrDecisionConclusion)
    ensures
        r == row_status_of(*g),
{
    if str_eq(g.status.as_str(), "fail") && g.enforced {
        PrDecisionConclusion::Failure
    } else if str_eq(g.status.as_str(), "pass") {
        PrDecisionConclusion::Success
    } else if str_eq(g.status.as_str(), "skipped") {
        PrDecisionConclusion::Skipped
    } else {
        PrDecisionConclusion::Neutral
    }
}

/// The label of a gate this build emits.
pub open spec fn known_label(name: Seq<char>) -> Option<Seq<char>> {
    if name == "error-severity-findings"@ {
        Some("Error-severity findings"@)
    } else if name == "regression"@ {
        Some("Regression"@)
    } else if name == "stale-baseline"@ {
        Some("Stale baseline"@)
    } else if name == "duplication-threshold"@ {
        Some("Duplication threshold"@)
    } else if name == "health-min-score"@ {
        Some("Health minimum score"@)
    } else if name == "health-min-severity"@ {
        Some("Health minimum severity"@)
    } else if name == "health-findings"@ {
        Some("Health findings"@)
    } else if name == "health-coverage-gaps"@ {
        Some("Coverage gaps"@)
    } else if name == "health-runtime-coverage"@ {
        Some("Runtime coverage"@)
    } else if name == "security"@ {
        Some("Security"@)
    } else if name == "security-advisory"@ {
        Some("Security advisory"@)
    } else if name == "audit-verdict"@ {
        Some("Audit verdict"@)
    } else if name == "type-aware-require"@ {
        Some("Type-aware completeness"@)
    } else {
        None
    }
}

/// The label of a gate this build emits, `None` for a name it does not know.
pub fn known_gate_label(name: &str) -> (r: Option<&'static str>)
    ensures
        match r {
            Some(l) => known_label(name@) == Some(l@),
            None => known_label(name@) is None,
        },
{
    if str_eq(name, "error-severity-findings") {
        Some("Error-severity findings")
    } else if str_eq(name, "regression") {
        Some("Regression")
    } else if str_eq(name, "stale-baseline") {
        Some("Stale baseline")
    } else if str_eq(name, "duplication-threshold") {
        Some("Duplication threshold")
    } else if str_eq(name, "health-min-score") {
        Some("Health minimum score")
    } else if str_eq(name, "health-min-severity") {
        Some("Health minimum severity")
    } else if str_eq(name, "health-findings") {
        Some("Health findings")
    } else if str_eq(name, "health-coverage-gaps") {
        Some("Coverage gaps")
    } else if str_eq(name, "health-runtime-coverage") {
        Some("Runtime coverage")
    } else if str_eq(name, "security") {
        Some("Security")
    } else if str_eq(name, "security-advisory") {
        Some("Security advisory")
    } else if str_eq(name, "audit-verdict") {
        Some("Audit verdict")
    } else if str_eq(name, "type-aware-require") {
        Some("Type-aware completeness")
    } else {
        None
    }
}

/// A kebab-case name read as words: `-` as spaces, the first character
/// uppercased.
pub open spec fn sentence_case_text(name: Seq<char>) -> Seq<char> {
    let spaced = replace_char(name, '-', " "@);
    if spaced.len() == 0 {
        Seq::empty()
    } else {
        char_uppercase(spaced[0]) + spaced.drop_first()
    }
}

/// `some-future-gate` as `Some future gate`.
pub fn sentence_case(name: &str) -> (r: String)
    ensures
        r@ == sentence_case_text(name@),
{
    let spaced = replace_char_str(name, '-', " ");
    let v = chars_of(spaced.as_str());
    if v.len() == 0 {
        return String::new();
    }
    let mut r = uppercase_of(v[0]);
    let mut i: usize = 1;
    let ghost head = r@;
    while i < v.len()
        invariant
            1 <= i <= v@.len(),
            r@ == head + v@.subrange(1, i as int),
        decreases v@.len() - i,
    {
        r.push(v[i]);
        i = i + 1;
        assert(r@ =~= head + v@.subrange(1, i as int));
    }
    assert(v@.subrange(1, v@.len() as int) =~= v@.drop_first());
    r
}

/// The display label of a gate: its known label, else its name read as words.
pub open spec fn gate_label_text(name: Seq<char>) -> Seq<char> {
    match known_label(name) {
        Some(l) => l,
        None => sentence_case_text(name),
    }
}

/// The display label of a gate; the name set is open, so an unknown name
/// still gets a readable label.
pub fn gate_label(name: &str) -> (r: String)
    ensures
        r@ == gate_label_text(name@),
{
    match known_gate_label(name) {
        Some(l) => {
            let mut r = String::new();
            push_str(&mut r, l);
            assert(r@ =~= l@);
            r
        },
        None => sentence_case(name),
    }
}

/// A row's `observed` text: what was compared, or the status word when
/// it compared nothing.
pub open spec fn observed_text_of(g: GateLine) -> Seq<char> {
    match (g.observed, g.threshold, g.threshold_label) {
        (Some(o), Some(t), _) => o@ + " against "@ + t@,
        (Some(o), None, Some(l)) => o@ + " at or above "@ + l@,
        (Some(o), None, None) => o@,
        _ => g.status@,
    }
}

/// A row's threshold text: the threshold, else its label, else none.
pub open spec fn threshold_text_of(g: GateLine) -> Option<Seq<char>> {
    match (g.threshold, g.threshold_label) {
        (Some(t), _) => Some(t@),
        (None, Some(l)) => Some(l@),
        (None, None) => None,
    }
}

/// One decision-surface row.
pub struct PrDecisionGate {
    pub id: String,
    pub label: String,
    pub status: PrDecisionConclusion,
    pub observed: String,
    pub threshold: Option<String>,
    pub scope: String,
}

/// `row` is the decision-surface row of gate `g`.
pub open spec fn row_of(row: PrDecisionGate, g: GateLine) -> bool {
    &&& row.id@ == g.name@
    &&& row.label@ == gate_label_text(g.name@)
    &&& row.status == row_status_of(g)
    &&& row.observed@ == observed_text_of(g)
    &&& match (row.threshold, threshold_text_of(g)) {
        (Some(a), Some(b)) => a@ == b,
        (None, None) => true,
        _ => false,
    }
    &&& row.scope@ == "this run"@
}

fn gate_row(g: &GateLine) -> (r: PrDecisionGate)
    ensures
        row_of(r, *g),
{
    let mut observed = String::new();
    match (&g.observed, &g.threshold, &g.threshold_label) {
        (Some(o), Some(t), _) => {
            push_str(&mut observed, o.as_str());
            push_str(&mut observed, " against ");
            push_str(&mut observed, t.as_str());
        },
        (Some(o), None, Some(l)) => {
            push_str(&mut observed, o.as_str());
            push_str(&mut observed, " at or above ");
            push_str(&mut observed, l.as_str());
        },
        (Some(o), None, None) => push_str(&mut observed, o.as_str()),
        _ => push_str(&mut observed, g.status.as_str()),
    }
    assert(observed@ =~= observed_text_of(*g));
    let threshold = match (&g.threshold, &g.threshold_label) {
        (Some(t), _) => Some(copy_string(t)),
        (None, Some(l)) => Some(copy_string(l)),
        (None, None) => None,
    };
    let mut id = String::new();
    push_str(&mut id, g.name.as_str());
    assert(id@ =~= g.name@);
    let mut scope = String::new();
    push_str(&mut scope, "this run");
    assert(scope@ =~= "this run"@);
    PrDecisionGate {
        id,
        label: gate_label(g.name.as_str()),
        status: row_status(g),
        observed,
        threshold,
        scope,
    }
}

/// One decision-surface row per gate the run armed, in wire order.
pub fn gate_rows(gates: &Vec<GateLine>) -> (r: Vec<PrDecisionGate>)
    ensures
        r@.len() == gates@.len(),
        forall|i: int| 0 <= i < r@.len() ==> row_of(#[trigger] r@[i], gates@[i]),
{
    let mut out: Vec<PrDecisionGate> = Vec::new();
    let mut i: usize = 0;
    while i < gates.len()
        invariant
            i <= gates@.len(),
            out@.len() == i,
            forall|k: int| 0 <= k < i ==> row_of(#[trigger] out@[k], gates@[k]),
        decreases gates@.len() - i,
    {
        let row = gate_row(&gates[i]);
        out.push(row);
        i = i + 1;
    }
    out
}


/// Only a `pass` status counts as passed, on the line and in the row: a gate
/// that stood down, warned, or reported a status this build does not know is
/// never shown as a pass; and only an enforced failure paints a failing row.
pub proof fn law_only_pass_is_a_pass(g: GateLine)
    ensures
        class_of(g.status@) == GateClass::Passed <==> g.status@ == "pass"@,
        row_status_of(g) == PrDecisionConclusion::Success <==> g.status@ == "pass"@,
        row_status_of(g) == PrDecisionConclusion::Failure <==> (g.status@ == "fail"@ && g.enforced),
{
    reveal_strlit("pass");
    reveal_strlit("fail");
    reveal_strlit("skipped");
    assert("pass"@ != "fail"@) by {
        assert("pass"@[0] != "fail"@[0]);
    }
    assert("pass"@ != "skipped"@) by {
        assert("pass"@[0] != "skipped"@[0]);
    }
}

/// The verdict line of a live run that holds its gate outcomes (or none):
/// the same line its saved envelope renders.
pub fn summary_line_for_gates(gates: Option<&Vec<GateLine>>) -> (r: Option<String>)
    ensures
        match gates {
            None => r is None,
            Some(g) => (g@.len() == 0 <==> r is None) && (r matches Some(s) ==> s@ == summary_text(g@)),
        },
{
    match gates {
        None => None,
        Some(g) => summary_line(g),
    }
}

/// The decision-surface rows of a live run's gate outcomes (or none): the
/// same rows its saved envelope builds.
pub fn gate_rows_for_gates(gates: Option<&Vec<GateLine>>) -> (r: Vec<PrDecisionGate>)
    ensures
        match gates {
            None => r@.len() == 0,
            Some(g) => r@.len() == g@.len() && forall|i: int| 0 <= i < r@.len() ==> row_of(#[trigger] r@[i], g@[i]),
        },
{
    match gates {
        None => Vec::new(),
        Some(g) => gate_rows(g),
    }
}

} // verus!
