use echo_rsvp::theme::{detect_background, parse_theme, Color, ThemeName};

#[test]
fn parse_accepts_valid_names() {
    assert_eq!(parse_theme("dark").unwrap(), ThemeName::Dark);
    assert_eq!(parse_theme("LIGHT").unwrap(), ThemeName::Light);
    assert_eq!(parse_theme("Auto").unwrap(), ThemeName::Auto);
    assert_eq!(parse_theme("solarized").unwrap(), ThemeName::Solarized);
    assert_eq!(parse_theme("solar").unwrap(), ThemeName::Solarized);
    assert_eq!(parse_theme("dracula").unwrap(), ThemeName::Dracula);
}

#[test]
fn parse_rejects_unknown() {
    assert!(parse_theme("neon").is_err());
}

#[test]
fn all_themes_resolve() {
    for name in [
        ThemeName::Dark,
        ThemeName::Light,
        ThemeName::Solarized,
        ThemeName::Dracula,
    ] {
        let t = name.resolve(None);
        // Smoke test: anchor color should differ from dim color.
        assert_ne!(format!("{:?}", t.anchor), format!("{:?}", t.dim));
    }
}

#[test]
fn background_from_colorfgbg() {
    assert_eq!(detect_background(None), ThemeName::Dark);
    assert_eq!(detect_background(Some("15;0")), ThemeName::Dark);
    assert_eq!(detect_background(Some("0;15")), ThemeName::Light);
    assert_eq!(detect_background(Some("0;default;7")), ThemeName::Light);
    assert_eq!(detect_background(Some("0;6")), ThemeName::Dark);
    assert_eq!(detect_background(Some("12")), ThemeName::Light);
    assert_eq!(detect_background(Some("0;+9")), ThemeName::Light);
    assert_eq!(detect_background(Some("0;")), ThemeName::Dark);
    assert_eq!(detect_background(Some("0;x9")), ThemeName::Dark);
    assert_eq!(detect_background(Some("0;99999999999")), ThemeName::Dark);
    assert_eq!(detect_background(Some("0;4294967295")), ThemeName::Light);
}

#[test]
fn auto_follows_the_terminal() {
    assert_eq!(ThemeName::Auto.resolve(Some("0;15")), ThemeName::Light.resolve(None));
    assert_eq!(ThemeName::Auto.resolve(Some("15;0")), ThemeName::Dark.resolve(None));
    assert_eq!(ThemeName::Auto.resolve(None), ThemeName::Dark.resolve(None));
    assert_eq!(ThemeName::Dark.resolve(None).bg, None);
    assert_eq!(ThemeName::Dracula.resolve(None).anchor, Color::Rgb { r: 255, g: 121, b: 198 });
}
