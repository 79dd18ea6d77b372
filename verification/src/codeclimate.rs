//! Re-rendering saved JSON envelopes as CodeClimate issues: the schema checks
//! a saved envelope must pass, the category and severity of an issue, and what
//! an issue's fingerprint is computed over.
use vstd::prelude::*;
use crate::sarif::AnnotationLevel;
use crate::severity::Severity;
use crate::text::{decimal, lemma_decimal_injective, has_prefix, has_infix, push_decimal, push_str, contains, starts_with, str_eq, chars_of, string_of};

verus! {

/// The kind of a saved envelope.
#[derive(Debug, Clone, Copy, PartialEq, Eq, Structural)]
pub enum EnvelopeKind {
    DeadCode,
    Dupes,
    Health,
    Audit,
    Security,
    Combined,
    Fix,
}

/// How an envelope kind is named in messages.
pub open spec fn kind_text(kind: EnvelopeKind) -> Seq<char> {
    match kind {
        EnvelopeKind::DeadCode => "dead-code"@,
        EnvelopeKind::Dupes => "dupes"@,
        EnvelopeKind::Health => "health"@,
        EnvelopeKind::Audit => "audit"@,
        EnvelopeKind::Security => "security"@,
        EnvelopeKind::Combined => "combined"@,
        EnvelopeKind::Fix => "fix"@,
    }
}

/// How an envelope kind is named in messages.
pub fn envelope_kind_label(kind: EnvelopeKind) -> (r: &'static str)
    ensures
        r@ == kind_text(kind),
{
    match kind {
        EnvelopeKind::DeadCode => "dead-code",
        EnvelopeKind::Dupes => "dupes",
        EnvelopeKind::Health => "health",
        EnvelopeKind::Audit => "audit",
        EnvelopeKind::Security => "security",
        EnvelopeKind::Combined => "combined",
        EnvelopeKind::Fix => "fix",
    }
}

/// A JSON value as the schema checks see it.
pub enum SavedValue {
    Null,
    Bool(bool),
    /// A number that fits a `u64`.
    UnsignedInteger(u64),
    /// Any other number.
    OtherNumber,
    Text(String),
    Array,
    Object,
}

/// The members of a saved JSON object, in order.
pub type SavedObject = Vec<(String, SavedValue)>;

/// The value of the member named `name`, if the object has one.
pub open spec fn lookup(fields: Seq<(String, SavedValue)>, name: Seq<char>) -> Option<SavedValue>
    decreases fields.len(),
{
    if fields.len() == 0 {
        None
    } else if fields[0].0@ == name {
        Some(fields[0].1)
    } else {
        lookup(fields.drop_first(), name)
    }
}

/// The JSON type a required field must have.
#[derive(Debug, Clone, Copy, PartialEq, Eq, Structural)]
pub enum SavedFieldType {
    Array,
    Boolean,
    Object,
    Text,
    UnsignedInteger,
}

/// How a field type is named in messages.
pub open spec fn type_text(t: SavedFieldType) -> Seq<char> {
    match t {
        SavedFieldType::Array => "an array"@,
        SavedFieldType::Boolean => "a boolean"@,
        SavedFieldType::Object => "an object"@,
        SavedFieldType::Text => "a string"@,
        SavedFieldType::UnsignedInteger => "a non-negative integer"@,
    }
}

/// Whether `v` has type `t`.
pub open spec fn type_matches(t: SavedFieldType, v: SavedValue) -> bool {
    match t {
        SavedFieldType::Array => v is Array,
        SavedFieldType::Boolean => v is Bool,
        SavedFieldType::Object => v is Object,
        SavedFieldType::Text => v is Text,
        SavedFieldType::UnsignedInteger => v is UnsignedInteger,
    }
}

impl SavedFieldType {
    /// How this field type is named in messages.
    pub fn label(self) -> (r: &'static str)
        ensures
            r@ == type_text(self),
    {
        match self {
            SavedFieldType::Array => "an array",
            SavedFieldType::Boolean => "a boolean",
            SavedFieldType::Object => "an object",
            SavedFieldType::Text => "a string",
            SavedFieldType::UnsignedInteger => "a non-negative integer",
        }
    }

    /// Whether `value` has this type.
    pub fn matches(self, value: &SavedValue) -> (r: bool)
        ensures
            r == type_matches(self, *value),
    {
        match self {
            SavedFieldType::Array => matches!(value, SavedValue::Array),
            SavedFieldType::Boolean => matches!(value, SavedValue::Bool(_)),
            SavedFieldType::Object => matches!(value, SavedValue::Object),
            SavedFieldType::Text => matches!(value, SavedValue::Text(_)),
            SavedFieldType::UnsignedInteger => matches!(value, SavedValue::UnsignedInteger(_)),
        }
    }
}

/// `a` if it is an error, else `b`: the first of two checks that fails.
pub open spec fn or_else(a: Option<Seq<char>>, b: Option<Seq<char>>) -> Option<Seq<char>> {
    if a is Some {
        a
    } else {
        b
    }
}

/// What is wrong with the required field `name` (shown as `shown`), if anything.
pub open spec fn field_error(
    kind: EnvelopeKind,
    fields: Seq<(String, SavedValue)>,
    name: Seq<char>,
    shown: Seq<char>,
    t: SavedFieldType,
) -> Option<Seq<char>> {
    match lookup(fields, name) {
        None => Some(
            "saved "@ + kind_text(kind) + " envelope is missing required field `"@ + shown + "`"@,
        ),
        Some(v) => if type_matches(t, v) {
            None
        } else {
            Some("saved "@ + kind_text(kind) + " envelope field `"@ + shown + "` must be "@ + type_text(t))
        },
    }
}

fn find_field<'a>(fields: &'a Vec<(String, SavedValue)>, name: &str) -> (r: Option<&'a SavedValue>)
    ensures
        match r {
            Some(v) => lookup(fields@, name@) == Some(*v),
            None => lookup(fields@, name@) is None,
        },
{
    let mut i: usize = 0;
    assert(fields@.skip(0) =~= fields@);
    while i < fields.len()
        invariant
            i <= fields@.len(),
            lookup(fields@, name@) == lookup(fields@.skip(i as int), name@),
        decreases fields@.len() - i,
    {
        proof {
            assert(fields@.skip(i as int)[0] == fields@[i as int]);
            assert(fields@.skip(i as int).drop_first() =~= fields@.skip(i as int + 1));
        }
        if str_eq(fields[i].0.as_str(), name) {
            return Some(&fields[i].1);
        }
        i = i + 1;
    }
    proof {
        assert(fields@.skip(i as int).len() == 0);
    }
    None
}

/// Check one required field; `shown` is how the message names it.
fn check_field(
    kind: EnvelopeKind,
    fields: &Vec<(String, SavedValue)>,
    name: &str,
    shown: &str,
    t: SavedFieldType,
) -> (r: Option<String>)
    ensures
        match r {
            Some(m) => field_error(kind, fields@, name@, shown@, t) == Some(m@),
            None => field_error(kind, fields@, name@, shown@, t) is None,
        },
{
    match find_field(fields, name) {
        None => {
            let mut m = String::new();
            push_str(&mut m, "saved ");
            push_str(&mut m, envelope_kind_label(kind));
            push_str(&mut m, " envelope is missing required field `");
            push_str(&mut m, shown);
            push_str(&mut m, "`");
            Some(m)
        },
        Some(v) => {
            if t.matches(v) {
                None
            } else {
                let mut m = String::new();
                push_str(&mut m, "saved ");
                push_str(&mut m, envelope_kind_label(kind));
                push_str(&mut m, " envelope field `");
                push_str(&mut m, shown);
                push_str(&mut m, "` must be ");
                push_str(&mut m, t.label());
                Some(m)
            }
        },
    }
}

/// A saved envelope as the schema checks read it: its top-level members, and
/// the members of its `summary` and `attribution` objects (empty when those
/// are not objects).
pub struct SavedEnvelope {
    pub fields: Vec<(String, SavedValue)>,
    pub summary: Vec<(String, SavedValue)>,
    pub attribution: Vec<(String, SavedValue)>,
    /// Whether the envelope carries the grouped dead-code marker set to `true`.
    pub grouped_dead_code: bool,
}

/// Whether `v` is text equal to one of `a`, `b` and `c`.
pub open spec fn text_in(v: Option<SavedValue>, a: Seq<char>, b: Seq<char>, c: Seq<char>) -> bool {
    v matches Some(SavedValue::Text(s)) && (s@ == a || s@ == b || s@ == c)
}

/// The first problem with the `summary` counts of an audit envelope.
pub open spec fn audit_summary_error(e: SavedEnvelope) -> Option<Seq<char>> {
    let k = EnvelopeKind::Audit;
    let s = e.summary@;
    or_else(
        field_error(k, s, "dead_code_issues"@, "summary.dead_code_issues"@, SavedFieldType::UnsignedInteger),
        or_else(
            field_error(k, s, "complexity_findings"@, "summary.complexity_findings"@, SavedFieldType::UnsignedInteger),
            or_else(
                field_error(k, s, "duplication_clone_groups"@, "summary.duplication_clone_groups"@, SavedFieldType::UnsignedInteger),
                field_error(k, s, "dead_code_has_errors"@, "summary.dead_code_has_errors"@, SavedFieldType::Boolean),
            ),
        ),
    )
}

/// The attribution counts an audit envelope must carry.
pub open spec fn attribution_counts() -> Seq<Seq<char>> {
    seq![
        "dead_code_introduced"@,
        "dead_code_inherited"@,
        "complexity_introduced"@,
        "complexity_inherited"@,
        "duplication_introduced"@,
        "duplication_inherited"@,
        "styling_introduced"@,
        "styling_inherited"@,
        "duplication_demoted"@,
    ]
}

/// The first missing or mistyped attribution count among `names`.
pub open spec fn counts_error(a: Seq<(String, SavedValue)>, names: Seq<Seq<char>>) -> Option<Seq<char>>
    decreases names.len(),
{
    if names.len() == 0 {
        None
    } else {
        or_else(
            field_error(EnvelopeKind::Audit, a, names[0], "attribution."@ + names[0], SavedFieldType::UnsignedInteger),
            counts_error(a, names.drop_first()),
        )
    }
}

/// The first problem with an audit envelope at the current schema version.
pub open spec fn audit_error(e: SavedEnvelope) -> Option<Seq<char>> {
    let k = EnvelopeKind::Audit;
    let f = e.fields@;
    or_else(
        field_error(k, f, "command"@, "command"@, SavedFieldType::Text),
        or_else(
            if text_in(lookup(f, "command"@), "audit"@, "audit"@, "audit"@) {
                None
            } else {
                Some("saved audit envelope field `command` must be `audit`"@)
            },
            or_else(
                field_error(k, f, "verdict"@, "verdict"@, SavedFieldType::Text),
                or_else(
                    if text_in(lookup(f, "verdict"@), "pass"@, "warn"@, "fail"@) {
                        None
                    } else {
                        Some("saved audit envelope field `verdict` must be `pass`, `warn`, or `fail`"@)
                    },
                    or_else(
                        field_error(k, f, "changed_files_count"@, "changed_files_count"@, SavedFieldType::UnsignedInteger),
                        or_else(
                            field_error(k, f, "base_ref"@, "base_ref"@, SavedFieldType::Text),
                            or_else(
                                field_error(k, f, "summary"@, "summary"@, SavedFieldType::Object),
                                or_else(
                                    audit_summary_error(e),
                                    or_else(
                                        field_error(k, f, "attribution"@, "attribution"@, SavedFieldType::Object),
                                        or_else(
                                            if lookup(e.attribution@, "gate"@) is None {
                                                Some("saved audit envelope is missing required field `attribution.gate`"@)
                                            } else if text_in(lookup(e.attribution@, "gate"@), "new-only"@, "all"@, "all"@) {
                                                None
                                            } else {
                                                Some("saved audit envelope field `attribution.gate` must be `new-only` or `all`"@)
                                            },
                                            counts_error(e.attribution@, attribution_counts()),
                                        ),
                                    ),
                                ),
                            ),
                        ),
                    ),
                ),
            ),
        ),
    )
}

fn text_is_one_of(v: Option<&SavedValue>, a: &str, b: &str, c: &str) -> (r: bool)
    ensures
        r == (match v {
            Some(SavedValue::Text(s)) => s@ == a@ || s@ == b@ || s@ == c@,
            _ => false,
        }),
{
    match v {
        Some(SavedValue::Text(s)) => str_eq(s.as_str(), a) || str_eq(s.as_str(), b) || str_eq(s.as_str(), c),
        _ => false,
    }
}

fn counts_check(a: &Vec<(String, SavedValue)>) -> (r: Option<String>)
    ensures
        match r {
            Some(m) => counts_error(a@, attribution_counts()) == Some(m@),
            None => counts_error(a@, attribution_counts()) is None,
        },
{
    let names: [&str; 9] = [
        "dead_code_introduced",
        "dead_code_inherited",
        "complexity_introduced",
        "complexity_inherited",
        "duplication_introduced",
        "duplication_inherited",
        "styling_introduced",
        "styling_inherited",
        "duplication_demoted",
    ];
    let ghost want = attribution_counts();
    proof {
        assert(names@.map_values(|s: &str| s@) =~= want) by {
            reveal_strlit("dead_code_introduced");
            reveal_strlit("dead_code_inherited");
            reveal_strlit("complexity_introduced");
            reveal_strlit("complexity_inherited");
            reveal_strlit("duplication_introduced");
            reveal_strlit("duplication_inherited");
            reveal_strlit("styling_introduced");
            reveal_strlit("styling_inherited");
            reveal_strlit("duplication_demoted");
        }
    }
    let mut i: usize = 0;
    assert(want.skip(0) =~= want);
    while i < 9
        invariant
            i <= 9,
            names@.len() == 9,
            names@.map_values(|s: &str| s@) == want,
            want == attribution_counts(),
            counts_error(a@, want) == counts_error(a@, want.skip(i as int)),
        decreases 9 - i,
    {
        let name = names[i];
        assert(want[i as int] == name@);
        let mut shown = String::new();
        push_str(&mut shown, "attribution.");
        push_str(&mut shown, name);
        proof {
            let rest = want.skip(i as int);
            assert(rest[0] == name@);
            assert(rest.drop_first() =~= want.skip(i as int + 1));
        }
        if let Some(m) = check_field(EnvelopeKind::Audit, a, name, shown.as_str(), SavedFieldType::UnsignedInteger) {
            return Some(m);
        }
        i = i + 1;
    }
    assert(want.skip(9) =~= Seq::<Seq<char>>::empty());
    None
}

/// Check an audit envelope saved at the current schema version: its command,
/// verdict, changed-file count and base ref, its summary counts, and its
/// attribution gate and counts. The error is the first problem found.
pub fn validate_current_audit_envelope(e: &SavedEnvelope) -> (r: Result<(), String>)
    ensures
        match r {
            Ok(()) => audit_error(*e) is None,
            Err(m) => audit_error(*e) == Some(m@),
        },
{
    let k = EnvelopeKind::Audit;
    proof {
        reveal_strlit("audit");
        reveal_strlit("pass");
        reveal_strlit("warn");
        reveal_strlit("fail");
        reveal_strlit("new-only");
        reveal_strlit("all");
    }
    if let Some(m) = check_field(k, &e.fields, "command", "command", SavedFieldType::Text) {
        return Err(m);
    }
    if !text_is_one_of(find_field(&e.fields, "command"), "audit", "audit", "audit") {
        let mut m = String::new();
        push_str(&mut m, "saved audit envelope field `command` must be `audit`");
        return Err(m);
    }
    if let Some(m) = check_field(k, &e.fields, "verdict", "verdict", SavedFieldType::Text) {
        return Err(m);
    }
    if !text_is_one_of(find_field(&e.fields, "verdict"), "pass", "warn", "fail") {
        let mut m = String::new();
        push_str(&mut m, "saved audit envelope field `verdict` must be `pass`, `warn`, or `fail`");
        return Err(m);
    }
    if let Some(m) = check_field(k, &e.fields, "changed_files_count", "changed_files_count", SavedFieldType::UnsignedInteger) {
        return Err(m);
    }
    if let Some(m) = check_field(k, &e.fields, "base_ref", "base_ref", SavedFieldType::Text) {
        return Err(m);
    }
    if let Some(m) = check_field(k, &e.fields, "summary", "summary", SavedFieldType::Object) {
        return Err(m);
    }
    if let Some(m) = check_field(k, &e.summary, "dead_code_issues", "summary.dead_code_issues", SavedFieldType::UnsignedInteger) {
        return Err(m);
    }
    if let Some(m) = check_field(k, &e.summary, "complexity_findings", "summary.complexity_findings", SavedFieldType::UnsignedInteger) {
        return Err(m);
    }
    if let Some(m) = check_field(k, &e.summary, "duplication_clone_groups", "summary.duplication_clone_groups", SavedFieldType::UnsignedInteger) {
        return Err(m);
    }
    if let Some(m) = check_field(k, &e.summary, "dead_code_has_errors", "summary.dead_code_has_errors", SavedFieldType::Boolean) {
        return Err(m);
    }
    if let Some(m) = check_field(k, &e.fields, "attribution", "attribution", SavedFieldType::Object) {
        return Err(m);
    }
    let gate = find_field(&e.attribution, "gate");
    if gate.is_none() {
        let mut m = String::new();
        push_str(&mut m, "saved audit envelope is missing required field `attribution.gate`");
        return Err(m);
    }
    if !text_is_one_of(gate, "new-only", "all", "all") {
        let mut m = String::new();
        push_str(&mut m, "saved audit envelope field `attribution.gate` must be `new-only` or `all`");
        return Err(m);
    }
    if let Some(m) = counts_check(&e.attribution) {
        return Err(m);
    }
    Ok(())
}


/// The first problem with an envelope of kind `kind` saved at the current
/// schema version.
pub open spec fn saved_error(kind: EnvelopeKind, e: SavedEnvelope) -> Option<Seq<char>> {
    let f = e.fields@;
    or_else(
        field_error(kind, f, "version"@, "version"@, SavedFieldType::Text),
        or_else(
            field_error(kind, f, "elapsed_ms"@, "elapsed_ms"@, SavedFieldType::UnsignedInteger),
            match kind {
                EnvelopeKind::DeadCode => or_else(
                    field_error(kind, f, "total_issues"@, "total_issues"@, SavedFieldType::UnsignedInteger),
                    if e.grouped_dead_code {
                        None
                    } else {
                        field_error(kind, f, "summary"@, "summary"@, SavedFieldType::Object)
                    },
                ),
                EnvelopeKind::Dupes => or_else(
                    field_error(kind, f, "clone_groups"@, "clone_groups"@, SavedFieldType::Array),
                    or_else(
                        field_error(kind, f, "clone_families"@, "clone_families"@, SavedFieldType::Array),
                        field_error(kind, f, "stats"@, "stats"@, SavedFieldType::Object),
                    ),
                ),
                EnvelopeKind::Health => or_else(
                    field_error(kind, f, "findings"@, "findings"@, SavedFieldType::Array),
                    field_error(kind, f, "summary"@, "summary"@, SavedFieldType::Object),
                ),
                EnvelopeKind::Audit => audit_error(e),
                _ => None,
            },
        ),
    )
}

/// Check an envelope saved at the current schema version: its version and
/// timing, then the sections its kind must carry.
pub fn validate_current_saved_envelope(kind: EnvelopeKind, e: &SavedEnvelope) -> (r: Result<(), String>)
    ensures
        match r {
            Ok(()) => saved_error(kind, *e) is None,
            Err(m) => saved_error(kind, *e) == Some(m@),
        },
{
    if let Some(m) = check_field(kind, &e.fields, "version", "version", SavedFieldType::Text) {
        return Err(m);
    }
    if let Some(m) = check_field(kind, &e.fields, "elapsed_ms", "elapsed_ms", SavedFieldType::UnsignedInteger) {
        return Err(m);
    }
    match kind {
        EnvelopeKind::DeadCode => {
            if let Some(m) = check_field(kind, &e.fields, "total_issues", "total_issues", SavedFieldType::UnsignedInteger) {
                return Err(m);
            }
            if !e.grouped_dead_code {
                if let Some(m) = check_field(kind, &e.fields, "summary", "summary", SavedFieldType::Object) {
                    return Err(m);
                }
            }
            Ok(())
        },
        EnvelopeKind::Dupes => {
            if let Some(m) = check_field(kind, &e.fields, "clone_groups", "clone_groups", SavedFieldType::Array) {
                return Err(m);
            }
            if let Some(m) = check_field(kind, &e.fields, "clone_families", "clone_families", SavedFieldType::Array) {
                return Err(m);
            }
            if let Some(m) = check_field(kind, &e.fields, "stats", "stats", SavedFieldType::Object) {
                return Err(m);
            }
            Ok(())
        },
        EnvelopeKind::Health => {
            if let Some(m) = check_field(kind, &e.fields, "findings", "findings", SavedFieldType::Array) {
                return Err(m);
            }
            if let Some(m) = check_field(kind, &e.fields, "summary", "summary", SavedFieldType::Object) {
                return Err(m);
            }
            Ok(())
        },
        EnvelopeKind::Audit => validate_current_audit_envelope(e),
        _ => Ok(()),
    }
}

/// What checking a saved envelope's schema version finds: no version (an
/// early envelope, accepted), a version that is not a number, a version this
/// build cannot read, or the current version with its sections checked.
/// `current` is the kind's current schema version, where it has one.
pub open spec fn schema_error(kind: EnvelopeKind, e: SavedEnvelope, current: Option<u32>) -> Option<Seq<char>> {
    match lookup(e.fields@, "schema_version"@) {
        None => None,
        Some(SavedValue::UnsignedInteger(v)) => match current {
            None => None,
            Some(c) => if v == 0 || v > c {
                Some(
                    "unsupported saved "@ + kind_text(kind) + " schema version "@ + decimal(v as nat)
                        + "; this Fallow version supports versions 1 through "@ + decimal(c as nat),
                )
            } else if v == c {
                saved_error(kind, e)
            } else {
                None
            },
        },
        Some(_) => Some("saved "@ + kind_text(kind) + " envelope has a non-numeric `schema_version`"@),
    }
}

/// Check a saved envelope's schema version, and its sections when it is the
/// current version.
pub fn validate_saved_schema(kind: EnvelopeKind, e: &SavedEnvelope, current: Option<u32>) -> (r: Result<(), String>)
    ensures
        match r {
            Ok(()) => schema_error(kind, *e, current) is None,
            Err(m) => schema_error(kind, *e, current) == Some(m@),
        },
{
    match find_field(&e.fields, "schema_version") {
        None => Ok(()),
        Some(SavedValue::UnsignedInteger(v)) => {
            let v = *v;
            match current {
                None => Ok(()),
                Some(c) => {
                    if v == 0 || v > c as u64 {
                        let mut m = String::new();
                        push_str(&mut m, "unsupported saved ");
                        push_str(&mut m, envelope_kind_label(kind));
                        push_str(&mut m, " schema version ");
                        push_decimal(&mut m, v);
                        push_str(&mut m, "; this Fallow version supports versions 1 through ");
                        push_decimal(&mut m, c as u64);
                        Err(m)
                    } else if v == c as u64 {
                        validate_current_saved_envelope(kind, e)
                    } else {
                        Ok(())
                    }
                },
            }
        },
        Some(_) => {
            let mut m = String::new();
            push_str(&mut m, "saved ");
            push_str(&mut m, envelope_kind_label(kind));
            push_str(&mut m, " envelope has a non-numeric `schema_version`");
            Err(m)
        },
    }
}

/// Whether a saved envelope predates the current schema: it has no numeric
/// version, or one below the kind's current version.
pub fn saved_schema_is_legacy(e: &SavedEnvelope, current: Option<u32>) -> (r: bool)
    ensures
        r == match lookup(e.fields@, "schema_version"@) {
            Some(SavedValue::UnsignedInteger(v)) => match current {
                Some(c) => v < c,
                None => false,
            },
            _ => true,
        },
{
    match find_field(&e.fields, "schema_version") {
        Some(SavedValue::UnsignedInteger(v)) => match current {
            Some(c) => *v < c as u64,
            None => false,
        },
        _ => true,
    }
}

/// The findings total a saved dead-code envelope declares, if it is a
/// non-negative integer.
pub open spec fn declared_total(e: SavedEnvelope) -> Option<u64> {
    match lookup(e.fields@, "total_issues"@) {
        Some(SavedValue::UnsignedInteger(v)) => Some(v),
        _ => None,
    }
}

/// Check a saved dead-code envelope's declared total against the `actual`
/// number of findings it holds. A legacy envelope (`legacy`) is not checked;
/// a current one must declare a non-negative integer `total_issues` equal to
/// `actual`.
pub fn check_saved_dead_code_total(e: &SavedEnvelope, legacy: bool, actual: u64) -> (r: Result<(), String>)
    ensures
        legacy ==> r is Ok,
        !legacy ==> match declared_total(*e) {
            None => r matches Err(m) && m@
                == "saved dead-code envelope is missing a non-negative integer `total_issues`"@,
            Some(d) => if d == actual {
                r is Ok
            } else {
                r matches Err(m) && m@ == "saved dead-code envelope declares "@ + decimal(d as nat)
                    + " findings but contains "@ + decimal(actual as nat)
            },
        },
{
    if legacy {
        return Ok(());
    }
    match find_field(&e.fields, "total_issues") {
        Some(SavedValue::UnsignedInteger(d)) => {
            if *d == actual {
                Ok(())
            } else {
                let mut m = String::new();
                push_str(&mut m, "saved dead-code envelope declares ");
                push_decimal(&mut m, *d);
                push_str(&mut m, " findings but contains ");
                push_decimal(&mut m, actual);
                Err(m)
            }
        },
        _ => {
            let mut m = String::new();
            push_str(&mut m, "saved dead-code envelope is missing a non-negative integer `total_issues`");
            Err(m)
        },
    }
}

/// The CodeClimate category of a native rule id.
pub open spec fn category_text(rule_id: Seq<char>) -> Seq<char> {
    if rule_id == "fallow/code-duplication"@ {
        "Duplication"@
    } else if has_prefix(rule_id, "fallow/high-"@) || rule_id == "fallow/complexity"@ {
        "Complexity"@
    } else if has_prefix(rule_id, "fallow/css-"@) {
        "Style"@
    } else if has_infix(rule_id, "untested"@) {
        "Coverage"@
    } else {
        "Bug Risk"@
    }
}

/// The CodeClimate category of a native rule id.
pub fn native_category(rule_id: &str) -> (r: &'static str)
    ensures
        r@ == category_text(rule_id@),
{
    if str_eq(rule_id, "fallow/code-duplication") {
        "Duplication"
    } else if starts_with(rule_id, "fallow/high-") || str_eq(rule_id, "fallow/complexity") {
        "Complexity"
    } else if starts_with(rule_id, "fallow/css-") {
        "Style"
    } else if contains(rule_id, "untested") {
        "Coverage"
    } else {
        "Bug Risk"
    }
}

/// A CodeClimate issue severity.
#[derive(Debug, Clone, Copy, PartialEq, Eq, Structural)]
pub enum CodeClimateSeverity {
    Info,
    Minor,
    Major,
    Critical,
    Blocker,
}

/// The Code Climate severity of an annotation level.
pub open spec fn annotation_codeclimate_of(level: AnnotationLevel) -> CodeClimateSeverity {
    match level {
        AnnotationLevel::Error => CodeClimateSeverity::Major,
        AnnotationLevel::Warning => CodeClimateSeverity::Minor,
        AnnotationLevel::Notice => CodeClimateSeverity::Info,
    }
}

/// The Code Climate severity of a SARIF level.
pub open spec fn sarif_level_codeclimate_of(level: Seq<char>) -> CodeClimateSeverity {
    if level == "error"@ {
        CodeClimateSeverity::Major
    } else if level == "warning"@ {
        CodeClimateSeverity::Minor
    } else {
        CodeClimateSeverity::Info
    }
}

/// An annotation rates the same in Code Climate whether it is mapped from
/// its level directly or through the SARIF level it renders as, and the
/// three levels rate differently.
pub proof fn law_annotation_severity_agrees_with_its_sarif_level(level: AnnotationLevel, other: AnnotationLevel)
    ensures
        sarif_level_codeclimate_of(crate::sarif::annotation_level_text(level)) == annotation_codeclimate_of(level),
        level != other ==> annotation_codeclimate_of(level) != annotation_codeclimate_of(other),
{
    reveal_strlit("error");
    reveal_strlit("warning");
    reveal_strlit("note");
    assert("note"@ != "error"@) by {
        assert("note"@.len() != "error"@.len());
    }
    assert("note"@ != "warning"@) by {
        assert("note"@.len() != "warning"@.len());
    }
    assert("error"@ != "warning"@) by {
        assert("error"@.len() != "warning"@.len());
    }
}

/// The CodeClimate severity of an annotation: errors are major, warnings
/// minor, notices informational.
pub fn annotation_codeclimate_severity(level: AnnotationLevel) -> (r: CodeClimateSeverity)
    ensures
        r == annotation_codeclimate_of(level),
{
    match level {
        AnnotationLevel::Error => CodeClimateSeverity::Major,
        AnnotationLevel::Warning => CodeClimateSeverity::Minor,
        AnnotationLevel::Notice => CodeClimateSeverity::Info,
    }
}

/// The CodeClimate severity of a SARIF level: `error` is major, `warning`
/// minor, anything else informational.
pub fn sarif_level_to_codeclimate(level: &str) -> (r: CodeClimateSeverity)
    ensures
        r == sarif_level_codeclimate_of(level@),
{
    if str_eq(level, "error") {
        CodeClimateSeverity::Major
    } else if str_eq(level, "warning") {
        CodeClimateSeverity::Minor
    } else {
        CodeClimateSeverity::Info
    }
}

/// The position of the first `'` in `s` at or after `from`.
pub open spec fn quote_from(s: Seq<char>, from: int) -> Option<int>
    decreases s.len() - from,
{
    if from < 0 || from >= s.len() {
        None
    } else if s[from] == '\'' {
        Some(from)
    } else {
        quote_from(s, from + 1)
    }
}

/// The text between the first two `'` of a message, when there are two and
/// something stands between them.
pub open spec fn quoted_subject(s: Seq<char>) -> Option<Seq<char>> {
    match quote_from(s, 0) {
        None => None,
        Some(i) => match quote_from(s, i + 1) {
            None => None,
            Some(j) => if j == i + 1 {
                None
            } else {
                Some(s.subrange(i + 1, j))
            },
        },
    }
}

fn find_quote(v: &Vec<char>, from: usize) -> (r: Option<usize>)
    requires
        from <= v@.len(),
    ensures
        match r {
            Some(i) => quote_from(v@, from as int) == Some(i as int),
            None => quote_from(v@, from as int) is None,
        },
        r matches Some(i) ==> from <= i < v@.len(),
    decreases v@.len() - from,
{
    if from >= v.len() {
        None
    } else if v[from] == '\'' {
        Some(from)
    } else {
        find_quote(v, from + 1)
    }
}

/// The subject a message quotes, as `first_quoted_subject` finds it.
pub fn first_quoted_subject(message: &str) -> (r: Option<String>)
    ensures
        match r {
            Some(s) => quoted_subject(message@) == Some(s@),
            None => quoted_subject(message@) is None,
        },
{
    let v = chars_of(message);
    let n = v.len();
    match find_quote(&v, 0) {
        None => None,
        Some(i) => match find_quote(&v, i + 1) {
            None => None,
            Some(j) => {
                if j == i + 1 {
                    None
                } else {
                    let mut out: Vec<char> = Vec::new();
                    let mut k: usize = i + 1;
                    while k < j
                        invariant
                            i + 1 <= k <= j,
                            j <= v@.len(),
                            out@ == v@.subrange(i + 1, k as int),
                        decreases j - k,
                    {
                        out.push(v[k]);
                        k = k + 1;
                        assert(out@ =~= v@.subrange(i + 1, k as int));
                    }
                    Some(string_of(&out))
                }
            },
        },
    }
}

/// Whether a rule reports a dependency, whose fingerprint follows the package
/// rather than the line it is declared on.
pub open spec fn dependency_rule(rule_id: Seq<char>) -> bool {
    rule_id == "fallow/unused-dependency"@ || rule_id == "fallow/unused-dev-dependency"@
        || rule_id == "fallow/unused-optional-dependency"@ || rule_id == "fallow/type-only-dependency"@
        || rule_id == "fallow/test-only-dependency"@ || rule_id == "fallow/dev-dependency-in-production"@
}

/// What a saved issue's fingerprint is computed over: the rule and path for
/// an unused file; the rule and the quoted package for a dependency rule;
/// otherwise the rule, path and line, and the quoted subject when there is one.
pub open spec fn fingerprint_parts_of(rule_id: Seq<char>, path: Seq<char>, line: u32, message: Seq<char>) -> Seq<Seq<char>> {
    if rule_id == "fallow/unused-file"@ {
        seq![rule_id, path]
    } else if dependency_rule(rule_id) && quoted_subject(message) is Some {
        seq![rule_id, quoted_subject(message)->0]
    } else if quoted_subject(message) is Some {
        seq![rule_id, path, decimal(line as nat), quoted_subject(message)->0]
    } else {
        seq![rule_id, path, decimal(line as nat)]
    }
}

/// A dependency finding's fingerprint follows its package, not where it
/// was reported: for each dependency rule (unused, unused dev, unused
/// optional, type-only, test-only, dev dependency in production) and a
/// message that quotes the package, the parts are the rule and the package,
/// whatever the path and line.
pub proof fn law_dependency_fingerprints_follow_the_package(
    rule_id: Seq<char>,
    path: Seq<char>,
    other_path: Seq<char>,
    line: u32,
    other_line: u32,
    message: Seq<char>,
)
    requires
        rule_id == "fallow/unused-dependency"@ || rule_id == "fallow/unused-dev-dependency"@ || rule_id
            == "fallow/unused-optional-dependency"@ || rule_id == "fallow/type-only-dependency"@ || rule_id
            == "fallow/test-only-dependency"@ || rule_id == "fallow/dev-dependency-in-production"@,
        quoted_subject(message) is Some,
    ensures
        fingerprint_parts_of(rule_id, path, line, message) == seq![rule_id, quoted_subject(message)->0],
        fingerprint_parts_of(rule_id, path, line, message) == fingerprint_parts_of(
            rule_id,
            other_path,
            other_line,
            message,
        ),
{
    reveal_strlit("fallow/unused-file");
    reveal_strlit("fallow/unused-dependency");
    reveal_strlit("fallow/unused-dev-dependency");
    reveal_strlit("fallow/unused-optional-dependency");
    reveal_strlit("fallow/type-only-dependency");
    reveal_strlit("fallow/test-only-dependency");
    reveal_strlit("fallow/dev-dependency-in-production");
    let f = "fallow/unused-file"@;
    assert(rule_id != f) by {
        if rule_id.len() == f.len() {
            assert(rule_id[14] != f[14] || rule_id[7] != f[7]);
        }
    }
}

/// Any other finding's fingerprint follows where it was reported: for a rule
/// that is neither the unused-file rule nor a dependency rule, two findings
/// at different lines of a file get different parts.
pub proof fn law_other_fingerprints_follow_the_line(
    rule_id: Seq<char>,
    path: Seq<char>,
    line: u32,
    other_line: u32,
    message: Seq<char>,
)
    requires
        rule_id != "fallow/unused-file"@,
        !(rule_id == "fallow/unused-dependency"@ || rule_id == "fallow/unused-dev-dependency"@ || rule_id
            == "fallow/unused-optional-dependency"@ || rule_id == "fallow/type-only-dependency"@ || rule_id
            == "fallow/test-only-dependency"@ || rule_id == "fallow/dev-dependency-in-production"@),
        line != other_line,
    ensures
        fingerprint_parts_of(rule_id, path, line, message) != fingerprint_parts_of(rule_id, path, other_line, message),
{
    lemma_decimal_injective(line as nat, other_line as nat);
    let a = fingerprint_parts_of(rule_id, path, line, message);
    let b = fingerprint_parts_of(rule_id, path, other_line, message);
    assert(a[2] != b[2]);
}

fn copy_str(s: &str) -> (r: String)
    ensures
        r@ == s@,
{
    let mut r = String::new();
    push_str(&mut r, s);
    assert(r@ =~= s@);
    r
}

/// The parts a saved issue's fingerprint is hashed over, in order.
pub fn envelope_fingerprint_parts(rule_id: &str, path: &str, line: u32, message: &str) -> (r: Vec<String>)
    ensures
        r@.map_values(|p: String| p@) == fingerprint_parts_of(rule_id@, path@, line, message@),
{
    let subject = first_quoted_subject(message);
    let mut r: Vec<String> = Vec::new();
    r.push(copy_str(rule_id));
    if str_eq(rule_id, "fallow/unused-file") {
        r.push(copy_str(path));
    } else {
        let dependency = str_eq(rule_id, "fallow/unused-dependency") || str_eq(rule_id, "fallow/unused-dev-dependency")
            || str_eq(rule_id, "fallow/unused-optional-dependency") || str_eq(rule_id, "fallow/type-only-dependency")
            || str_eq(rule_id, "fallow/test-only-dependency") || str_eq(rule_id, "fallow/dev-dependency-in-production");
        match subject {
            Some(s) => {
                if dependency {
                    r.push(s);
                } else {
                    r.push(copy_str(path));
                    let mut l = String::new();
                    push_decimal(&mut l, line as u64);
                    r.push(l);
                    r.push(s);
                }
            },
            None => {
                r.push(copy_str(path));
                let mut l = String::new();
                push_decimal(&mut l, line as u64);
                r.push(l);
            },
        }
    }
    assert(r@.map_values(|p: String| p@) =~= fingerprint_parts_of(rule_id@, path@, line, message@));
    r
}

/// The CodeClimate severity of an enabled rule: errors are major, warnings
/// minor. A disabled rule has no findings to rate.
pub fn severity_to_codeclimate(s: Severity) -> (r: CodeClimateSeverity)
    requires
        s != Severity::Off,
    ensures
        s == Severity::Error ==> r == CodeClimateSeverity::Major,
        s == Severity::Warn ==> r == CodeClimateSeverity::Minor,
{
    match s {
        Severity::Error => CodeClimateSeverity::Major,
        _ => CodeClimateSeverity::Minor,
    }
}

/// How severe a health finding is.
#[derive(Debug, Clone, Copy, PartialEq, Eq, Structural)]
pub enum FindingSeverity {
    Critical,
    High,
    Moderate,
}

/// The CodeClimate severity of a health finding.
pub fn health_finding_severity(severity: FindingSeverity) -> (r: CodeClimateSeverity)
    ensures
        r == match severity {
            FindingSeverity::Critical => CodeClimateSeverity::Critical,
            FindingSeverity::High => CodeClimateSeverity::Major,
            FindingSeverity::Moderate => CodeClimateSeverity::Minor,
        },
{
    match severity {
        FindingSeverity::Critical => CodeClimateSeverity::Critical,
        FindingSeverity::High => CodeClimateSeverity::Major,
        FindingSeverity::Moderate => CodeClimateSeverity::Minor,
    }
}

/// What runtime coverage concluded about a function.
#[derive(Debug, Clone, Copy, PartialEq, Eq, Structural)]
pub enum RuntimeCoverageVerdict {
    SafeToDelete,
    ReviewRequired,
    LowTraffic,
    CoverageUnavailable,
    Active,
    Unknown,
}

pub open spec fn runtime_check_text(verdict: RuntimeCoverageVerdict) -> Seq<char> {
    match verdict {
        RuntimeCoverageVerdict::SafeToDelete => "fallow/runtime-safe-to-delete"@,
        RuntimeCoverageVerdict::ReviewRequired => "fallow/runtime-review-required"@,
        RuntimeCoverageVerdict::LowTraffic => "fallow/runtime-low-traffic"@,
        RuntimeCoverageVerdict::CoverageUnavailable => "fallow/runtime-coverage-unavailable"@,
        RuntimeCoverageVerdict::Active | RuntimeCoverageVerdict::Unknown => "fallow/runtime-coverage"@,
    }
}

/// The check name of a runtime-coverage finding; active and unknown code share
/// the generic one.
pub fn runtime_coverage_check_name(verdict: RuntimeCoverageVerdict) -> (r: &'static str)
    ensures
        r@ == runtime_check_text(verdict),
{
    match verdict {
        RuntimeCoverageVerdict::SafeToDelete => "fallow/runtime-safe-to-delete",
        RuntimeCoverageVerdict::ReviewRequired => "fallow/runtime-review-required",
        RuntimeCoverageVerdict::LowTraffic => "fallow/runtime-low-traffic",
        RuntimeCoverageVerdict::CoverageUnavailable => "fallow/runtime-coverage-unavailable",
        RuntimeCoverageVerdict::Active | RuntimeCoverageVerdict::Unknown => "fallow/runtime-coverage",
    }
}

/// The CodeClimate severity of a runtime-coverage finding: deletable code is
/// critical, code to review major, the rest minor.
pub fn runtime_coverage_severity(verdict: RuntimeCoverageVerdict) -> (r: CodeClimateSeverity)
    ensures
        r == match verdict {
            RuntimeCoverageVerdict::SafeToDelete => CodeClimateSeverity::Critical,
            RuntimeCoverageVerdict::ReviewRequired => CodeClimateSeverity::Major,
            _ => CodeClimateSeverity::Minor,
        },
{
    match verdict {
        RuntimeCoverageVerdict::SafeToDelete => CodeClimateSeverity::Critical,
        RuntimeCoverageVerdict::ReviewRequired => CodeClimateSeverity::Major,
        _ => CodeClimateSeverity::Minor,
    }
}

/// What coverage intelligence concluded about a change.
#[derive(Debug, Clone, Copy, PartialEq, Eq, Structural)]
pub enum CoverageIntelligenceVerdict {
    RiskyChangeDetected,
    HighConfidenceDelete,
    ReviewRequired,
    RefactorCarefully,
    Clean,
    Unknown,
}

/// The CodeClimate severity of a coverage-intelligence verdict; a clean or
/// unknown verdict raises no issue.
pub fn coverage_intelligence_severity(verdict: CoverageIntelligenceVerdict) -> (r: Option<CodeClimateSeverity>)
    ensures
        r == match verdict {
            CoverageIntelligenceVerdict::RiskyChangeDetected | CoverageIntelligenceVerdict::HighConfidenceDelete =>
                Some(CodeClimateSeverity::Major),
            CoverageIntelligenceVerdict::ReviewRequired | CoverageIntelligenceVerdict::RefactorCarefully =>
                Some(CodeClimateSeverity::Minor),
            CoverageIntelligenceVerdict::Clean | CoverageIntelligenceVerdict::Unknown => None,
        },
{
    match verdict {
        CoverageIntelligenceVerdict::RiskyChangeDetected | CoverageIntelligenceVerdict::HighConfidenceDelete =>
            Some(CodeClimateSeverity::Major),
        CoverageIntelligenceVerdict::ReviewRequired | CoverageIntelligenceVerdict::RefactorCarefully =>
            Some(CodeClimateSeverity::Minor),
        CoverageIntelligenceVerdict::Clean | CoverageIntelligenceVerdict::Unknown => None,
    }
}

/// What coverage intelligence recommends doing.
#[derive(Debug, Clone, Copy, PartialEq, Eq, Structural)]
pub enum CoverageIntelligenceRecommendation {
    AddTestOrSplitBeforeMerge,
    DeleteAfterConfirmingOwner,
    ReviewBeforeChanging,
    RefactorCarefullyKeepBehavior,
}

pub open spec fn intelligence_check_text(r: CoverageIntelligenceRecommendation) -> Seq<char> {
    match r {
        CoverageIntelligenceRecommendation::AddTestOrSplitBeforeMerge => "fallow/coverage-intelligence-risky-change"@,
        CoverageIntelligenceRecommendation::DeleteAfterConfirmingOwner => "fallow/coverage-intelligence-delete"@,
        CoverageIntelligenceRecommendation::ReviewBeforeChanging => "fallow/coverage-intelligence-review"@,
        CoverageIntelligenceRecommendation::RefactorCarefullyKeepBehavior => "fallow/coverage-intelligence-refactor"@,
    }
}

/// The check name of a coverage-intelligence finding, by its recommendation.
pub fn coverage_intelligence_check_name(recommendation: CoverageIntelligenceRecommendation) -> (r: &'static str)
    ensures
        r@ == intelligence_check_text(recommendation),
{
    match recommendation {
        CoverageIntelligenceRecommendation::AddTestOrSplitBeforeMerge => "fallow/coverage-intelligence-risky-change",
        CoverageIntelligenceRecommendation::DeleteAfterConfirmingOwner => "fallow/coverage-intelligence-delete",
        CoverageIntelligenceRecommendation::ReviewBeforeChanging => "fallow/coverage-intelligence-review",
        CoverageIntelligenceRecommendation::RefactorCarefullyKeepBehavior => "fallow/coverage-intelligence-refactor",
    }
}

} // verus!
