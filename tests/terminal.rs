use theme_sync::{plan_terminal_apply, settle_terminal_apply, ApplyError, ThemePreference, ThemeTable};

fn kitty_themes() -> ThemeTable {
    ThemeTable::new(b"dark.conf".to_vec(), b"light.conf".to_vec(), b"light.conf".to_vec())
}

#[test]
fn link_targets_theme_for_preference() {
    let plan = plan_terminal_apply(&kitty_themes(), ThemePreference::Dark, true, true).unwrap();
    assert_eq!(plan.target, b"dark.conf".to_vec());
    assert!(plan.remove_existing);
    let plan = plan_terminal_apply(&kitty_themes(), ThemePreference::Light, true, false).unwrap();
    assert_eq!(plan.target, b"light.conf".to_vec());
    assert!(!plan.remove_existing);
}

#[test]
fn repeated_apply_keeps_same_target() {
    let first = plan_terminal_apply(&kitty_themes(), ThemePreference::Dark, true, false).unwrap();
    let second = plan_terminal_apply(&kitty_themes(), ThemePreference::Dark, true, true).unwrap();
    assert_eq!(first.target, second.target);
}

#[test]
fn missing_theme_file_is_path_missing() {
    let r = plan_terminal_apply(&kitty_themes(), ThemePreference::Light, false, true);
    assert!(matches!(r, Err(ApplyError::PathMissing)));
}

#[test]
fn failed_signal_is_only_a_warning() {
    assert_eq!(settle_terminal_apply(Ok(()), false), (Ok(()), true));
    assert_eq!(settle_terminal_apply(Ok(()), true), (Ok(()), false));
    assert_eq!(
        settle_terminal_apply(Err(ApplyError::IoFailure), false),
        (Err(ApplyError::IoFailure), false)
    );
}
