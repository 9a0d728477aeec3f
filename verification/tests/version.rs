use cmap_pool::version::{expected_hint_outcome, skips_hint_scenario, HintOutcome, ServerVersion};

fn v(major: u64, minor: u64, patch: u64) -> ServerVersion {
    ServerVersion { major, minor, patch }
}

#[test]
fn server_version_lt_compares_major_then_minor() {
    assert!(v(3, 6, 9).server_version_lt(4, 0));
    assert!(!v(4, 0, 0).server_version_lt(4, 0));
    assert!(v(4, 2, 8).server_version_lt(4, 3));
    assert!(!v(4, 3, 0).server_version_lt(4, 3));
    assert!(!v(5, 0, 0).server_version_lt(4, 9));
    assert!(v(4, 9, 9).server_version_lt(5, 0));
}

#[test]
fn requirements_are_read_by_semver() {
    assert_eq!(v(4, 0, 3).meets("< 4.2"), Some(true));
    assert_eq!(v(4, 2, 0).meets("< 4.2"), Some(false));
    assert_eq!(v(3, 6, 0).meets("< 4.2"), Some(true));
    assert_eq!(v(4, 2, 0).meets("4.2.*"), Some(true));
    assert_eq!(v(4, 2, 17).meets("4.2.*"), Some(true));
    assert_eq!(v(4, 4, 0).meets("4.2.*"), Some(false));
    assert_eq!(v(4, 2, 0).meets(">= 4.2"), Some(true));
    assert_eq!(v(5, 0, 0).meets(">= 4.2"), Some(true));
    assert_eq!(v(4, 1, 9).meets(">= 4.2"), Some(false));
    assert_eq!(v(1, 2, 3).meets("=1.2.3"), Some(true));
    assert_eq!(v(1, 2, 3).meets("not a requirement"), None);
    assert_eq!(v(1, 2, 3).meets(">=1.0 <2.0"), None);
}

#[test]
fn hint_outcome_by_what_the_requirements_say() {
    assert_eq!(expected_hint_outcome(true, false), HintOutcome::InvalidArgument);
    assert_eq!(expected_hint_outcome(true, true), HintOutcome::InvalidArgument);
    assert_eq!(expected_hint_outcome(false, true), HintOutcome::CommandError);
    assert_eq!(expected_hint_outcome(false, false), HintOutcome::Success);
}

#[test]
fn hint_outcome_by_version() {
    assert_eq!(v(4, 0, 0).find_one_and_delete_hint_outcome(), Some(HintOutcome::InvalidArgument));
    assert_eq!(v(3, 4, 1).find_one_and_delete_hint_outcome(), Some(HintOutcome::InvalidArgument));
    assert_eq!(v(4, 2, 5).find_one_and_delete_hint_outcome(), Some(HintOutcome::CommandError));
    assert_eq!(v(4, 4, 0).find_one_and_delete_hint_outcome(), Some(HintOutcome::Success));
    assert_eq!(v(6, 0, 0).find_one_and_delete_hint_outcome(), Some(HintOutcome::Success));
}

#[test]
fn hint_scenario_is_skipped_on_old_servers_with_options_only() {
    assert!(skips_hint_scenario(true, false));
    assert!(!skips_hint_scenario(true, true));
    assert!(!skips_hint_scenario(false, false));
    assert!(!skips_hint_scenario(false, true));
    assert_eq!(v(4, 0, 0).find_one_and_delete_hint_skipped(true), Some(true));
    assert_eq!(v(4, 0, 0).find_one_and_delete_hint_skipped(false), Some(false));
    assert_eq!(v(4, 2, 0).find_one_and_delete_hint_skipped(true), Some(false));
    assert_eq!(v(4, 4, 2).find_one_and_delete_hint_skipped(true), Some(false));
}
