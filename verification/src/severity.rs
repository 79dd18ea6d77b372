//! The configured rule severity, and how each CI surface spells it.
use vstd::prelude::*;

verus! {

/// A rule's configured severity.
#[derive(Debug, Clone, Copy, PartialEq, Eq, Structural)]
pub enum Severity {
    Error,
    Warn,
    Off,
}

/// The SARIF result level of an enabled rule.
pub fn sarif_level(severity: Severity) -> (r: &'static str)
    requires
        severity != Severity::Off,
    ensures
        severity == Severity::Error ==> r@ == "error"@,
        severity == Severity::Warn ==> r@ == "warning"@,
{
    match severity {
        Severity::Error => "error",
        _ => "warning",
    }
}

/// The CodeClimate severity of an enabled rule.
pub fn codeclimate_severity(severity: Severity) -> (r: &'static str)
    requires
        severity != Severity::Off,
    ensures
        severity == Severity::Error ==> r@ == "major"@,
        severity == Severity::Warn ==> r@ == "minor"@,
{
    match severity {
        Severity::Error => "major",
        _ => "minor",
    }
}

/// The GitHub check-run conclusion a severity maps onto.
pub fn github_check_conclusion(severity: Severity) -> (r: &'static str)
    ensures
        severity == Severity::Error ==> r@ == "failure"@,
        severity == Severity::Warn ==> r@ == "neutral"@,
        severity == Severity::Off ==> r@ == "success"@,
{
    match severity {
        Severity::Error => "failure",
        Severity::Warn => "neutral",
        Severity::Off => "success",
    }
}

/// The label a review comment gives a severity.
pub open spec fn review_label_spec(severity: Severity) -> Seq<char> {
    match severity {
        Severity::Error => "error"@,
        Severity::Warn => "warn"@,
        Severity::Off => "off"@,
    }
}

pub fn review_label(severity: Severity) -> (r: &'static str)
    ensures
        r@ == review_label_spec(severity),
{
    match severity {
        Severity::Error => "error",
        Severity::Warn => "warn",
        Severity::Off => "off",
    }
}

/// The SARIF level a rule is listed with in the rule table, where a disabled
/// rule still appears with level `none`.
pub fn configured_sarif_level(severity: Severity) -> (r: &'static str)
    ensures
        severity == Severity::Error ==> r@ == "error"@,
        severity == Severity::Warn ==> r@ == "warning"@,
        severity == Severity::Off ==> r@ == "none"@,
{
    match severity {
        Severity::Error => "error",
        Severity::Warn => "warning",
        Severity::Off => "none",
    }
}

} // verus!
