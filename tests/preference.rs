use theme_sync::{parse_theme_preference, preference_of_payload, ThemePreference};
use zbus::zvariant::OwnedValue;

#[test]
fn known_codes_decode() {
    assert_eq!(ThemePreference::from(1u32), ThemePreference::Dark);
    assert_eq!(ThemePreference::from(2u32), ThemePreference::Light);
    assert_eq!(ThemePreference::from(0u32), ThemePreference::NoPreference);
}

#[test]
fn other_codes_decode_to_unknown() {
    for code in [3u32, 4, 17, 255, 1000, u32::MAX] {
        assert_eq!(ThemePreference::from(code), ThemePreference::Unknown);
    }
}

#[test]
fn missing_payload_is_unknown() {
    assert_eq!(preference_of_payload(None), ThemePreference::Unknown);
    assert_eq!(preference_of_payload(Some(1)), ThemePreference::Dark);
    assert_eq!(preference_of_payload(Some(9)), ThemePreference::Unknown);
}

#[test]
fn parses_u32_setting_values() {
    assert_eq!(parse_theme_preference(&OwnedValue::from(1u32)), ThemePreference::Dark);
    assert_eq!(parse_theme_preference(&OwnedValue::from(2u32)), ThemePreference::Light);
    assert_eq!(
        parse_theme_preference(&OwnedValue::from(0u32)),
        ThemePreference::NoPreference
    );
    assert_eq!(parse_theme_preference(&OwnedValue::from(5u32)), ThemePreference::Unknown);
}

#[test]
fn wrong_value_type_is_unknown() {
    assert_eq!(parse_theme_preference(&OwnedValue::from(1u64)), ThemePreference::Unknown);
    assert_eq!(parse_theme_preference(&OwnedValue::from(2i32)), ThemePreference::Unknown);
    assert_eq!(parse_theme_preference(&OwnedValue::from(true)), ThemePreference::Unknown);
}
