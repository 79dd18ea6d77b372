use fallow_cli::meta::{OutputFormat, TypeAwareRequire};
use fallow_cli::type_aware_degrade::{degrade_or_fail, degrade_warning, DegradeContext};

fn context(error: &str, require: TypeAwareRequire) -> DegradeContext<'_> {
    DegradeContext {
        root: "/repo",
        error,
        failure_label: "Type-aware analysis failed",
        require,
        quiet: true,
        output: OutputFormat::Json,
    }
}

#[test]
fn best_effort_degrades_with_a_recorded_warning() {
    let meta = degrade_or_fail(&context("sidecar timed out", TypeAwareRequire::BestEffort))
        .expect("best-effort should continue with syntactic findings");
    assert!(!meta.executed);
    assert_eq!(meta.warning_count, 1);
    assert!(meta.warnings[0].contains("sidecar timed out"));
    assert!(
        meta.warnings[0].contains("showing conservative syntactic findings"),
        "warning should explain the fallback: {}",
        meta.warnings[0]
    );
}

#[test]
fn complete_still_fails_hard() {
    let outcome = degrade_or_fail(&context("sidecar timed out", TypeAwareRequire::Complete));
    assert!(outcome.is_err(), "require=complete must not degrade");
}

#[test]
fn a_hard_failure_names_the_surface_and_the_error() {
    let outcome = degrade_or_fail(&context("sidecar timed out", TypeAwareRequire::Complete));
    assert_eq!(outcome.unwrap_err(), "Type-aware analysis failed: sidecar timed out");
}

#[test]
fn the_degrade_warning_is_silent_when_quiet_or_failing() {
    assert_eq!(degrade_warning(&context("x", TypeAwareRequire::BestEffort)), None);
    let mut loud = context("x", TypeAwareRequire::BestEffort);
    loud.quiet = false;
    assert_eq!(
        degrade_warning(&loud).unwrap(),
        "Warning: type-aware refinement unavailable for /repo: x; showing conservative syntactic findings"
    );
    loud.require = TypeAwareRequire::Complete;
    assert_eq!(degrade_warning(&loud), None);
}
