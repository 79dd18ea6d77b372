use fallow_cli::status;
use fallow_cli::status::HumanStatus;

#[test]
fn status_prefixes_are_stable_and_scannable() {
    assert_eq!(status::line(HumanStatus::Healthy, "ready"), "[OK] ready");
    assert_eq!(status::line(HumanStatus::Warning, "partial"), "[W] partial");
    assert_eq!(status::line(HumanStatus::Inactive, "unavailable"), "[-] unavailable");
}
