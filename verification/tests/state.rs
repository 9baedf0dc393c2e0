use keylauncher::permission::{mode_grants_access, permission_mode, shown_enabled};
use keylauncher::state::StateFile;
use keylauncher::text::parse_enabled_arg;

#[test]
fn unseen_id_defaults_to_enabled() {
    let state = StateFile::default();
    assert!(state.is_enabled("some-id"));
}

#[test]
fn set_then_is_enabled_round_trips() {
    let mut state = StateFile::default();
    state.set("abc", false);
    assert!(!state.is_enabled("abc"));
    state.set("abc", true);
    assert!(state.is_enabled("abc"));
}

#[test]
fn setting_one_device_leaves_others_alone() {
    let mut state = StateFile::default();
    state.set("abc", false);
    state.set("def", false);
    state.set("def", true);
    assert!(!state.is_enabled("abc"));
    assert!(state.is_enabled("def"));
    assert!(state.is_enabled("ghi"));
}

#[test]
fn entries_hold_each_identity_once() {
    let mut state = StateFile::default();
    state.set("abc", false);
    state.set("abc", true);
    state.set("def", false);
    let mut entries = state.entries();
    entries.sort();
    assert_eq!(entries, vec![("abc".to_string(), true), ("def".to_string(), false)]);
}

#[test]
fn permission_modes_are_owner_group_or_owner_only() {
    assert_eq!(permission_mode(true), 0o660);
    assert_eq!(permission_mode(false), 0o600);
}

#[test]
fn applied_mode_reads_back_as_the_state() {
    assert!(mode_grants_access(permission_mode(true)));
    assert!(!mode_grants_access(permission_mode(false)));
    assert!(mode_grants_access(0o640));
    assert!(mode_grants_access(0o620));
    assert!(mode_grants_access(0o604));
    assert!(mode_grants_access(0o602));
    assert!(!mode_grants_access(0o700));
    assert!(!mode_grants_access(0o611));
    assert!(mode_grants_access(0o20660));
}

#[test]
fn disabled_device_stays_unreachable_after_replug() {
    let mut state = StateFile::default();
    state.set("ABC123", false);
    assert!(!mode_grants_access(permission_mode(state.is_enabled("ABC123"))));
    state.set("ABC123", true);
    assert!(mode_grants_access(permission_mode(state.is_enabled("ABC123"))));
}

#[test]
fn enabled_word_parses_like_the_privileged_command() {
    assert!(parse_enabled_arg("true"));
    assert!(!parse_enabled_arg("false"));
    assert!(parse_enabled_arg("garbage"));
    assert!(parse_enabled_arg("FALSE"));
}

#[test]
fn states_with_the_same_choices_are_equal_in_any_order() {
    let mut a = StateFile::default();
    a.set("x", false);
    a.set("y", true);
    let mut b = StateFile::default();
    b.set("y", true);
    b.set("x", false);
    assert_eq!(a, b);
    b.set("x", true);
    assert_ne!(a, b);
    let mut c = StateFile::default();
    c.set("x", false);
    assert_ne!(a, c);
    assert_ne!(c, a);
    assert_eq!(StateFile::default(), StateFile::default());
}

#[test]
fn shown_state_comes_from_the_first_node() {
    assert!(shown_enabled(Some(0o20660)));
    assert!(!shown_enabled(Some(0o20600)));
    assert!(!shown_enabled(None));
}
