use theme_sync::{apply_editor_theme, find_theme_directive, rewrite_theme_line, ThemePreference, ThemeTable};

fn helix_themes() -> ThemeTable {
    ThemeTable::new(
        b"modus_vivendi".to_vec(),
        b"modus_operandi".to_vec(),
        b"modus_operandi".to_vec(),
    )
}

#[test]
fn light_replaces_theme_line_and_keeps_others() {
    let out = apply_editor_theme(&helix_themes(), b"theme = \"X\"\nfoo=1\n", ThemePreference::Light);
    assert_eq!(out, b"theme = \"modus_operandi\"\nfoo=1\n".to_vec());
}

#[test]
fn dark_twice_is_byte_identical() {
    let text = b"[editor]\ntheme = \"default\"\r\nline-number = \"relative\"\n".to_vec();
    let once = apply_editor_theme(&helix_themes(), &text, ThemePreference::Dark);
    let twice = apply_editor_theme(&helix_themes(), &once, ThemePreference::Dark);
    assert_eq!(once, b"[editor]\ntheme = \"modus_vivendi\"\r\nline-number = \"relative\"\n".to_vec());
    assert_eq!(once, twice);
}

#[test]
fn file_without_theme_line_is_unchanged() {
    let text = b"foo=1\n  theme = \"x\"\nbar = 2".to_vec();
    assert_eq!(find_theme_directive(&text), None);
    let out = apply_editor_theme(&helix_themes(), &text, ThemePreference::Dark);
    assert_eq!(out, text);
    assert_eq!(apply_editor_theme(&helix_themes(), b"", ThemePreference::Light), Vec::<u8>::new());
}

#[test]
fn only_first_directive_is_rewritten() {
    let out = rewrite_theme_line(b"a\ntheme = \"one\"\ntheme = \"two\"", b"new");
    assert_eq!(out, b"a\ntheme = \"new\"\ntheme = \"two\"".to_vec());
}

#[test]
fn directive_at_end_without_newline() {
    assert_eq!(find_theme_directive(b"x=1\ntheme = y"), Some(4));
    assert_eq!(rewrite_theme_line(b"x=1\ntheme = y", b"z"), b"x=1\ntheme = \"z\"".to_vec());
}

#[test]
fn no_preference_and_unknown_take_fallback() {
    let themes = ThemeTable::new(b"d".to_vec(), b"l".to_vec(), b"f".to_vec());
    assert_eq!(apply_editor_theme(&themes, b"theme = a\n", ThemePreference::NoPreference), b"theme = \"f\"\n".to_vec());
    assert_eq!(apply_editor_theme(&themes, b"theme = a\n", ThemePreference::Unknown), b"theme = \"f\"\n".to_vec());
    assert_eq!(themes.pick(ThemePreference::Dark), &b"d".to_vec());
    assert_eq!(themes.pick(ThemePreference::Light), &b"l".to_vec());
}
