use echo_rsvp::config::{config_path_from, join_path, merge, parse_focal, parse_pause_level, Config, RawConfig};
use echo_rsvp::rsvp::{Focal, PauseLevel};
use echo_rsvp::theme::ThemeName;

#[test]
fn defaults_when_empty() {
    let cfg = merge(Config::default(), RawConfig::default()).unwrap();
    assert_eq!(cfg.wpm, 300);
    assert!(cfg.start_paused);
    assert_eq!(cfg.pauses, PauseLevel::Medium);
}

#[test]
fn pauses_parses_case_insensitively() {
    assert_eq!(parse_pause_level("OFF").unwrap(), PauseLevel::Off);
    assert_eq!(parse_pause_level("Low").unwrap(), PauseLevel::Low);
    assert_eq!(parse_pause_level("medium").unwrap(), PauseLevel::Medium);
    assert_eq!(parse_pause_level("HIGH").unwrap(), PauseLevel::High);
}

#[test]
fn merge_with_only_wpm_set() {
    let raw = RawConfig { wpm: Some(420), ..RawConfig::default() };
    let cfg = merge(Config::default(), raw).unwrap();
    assert_eq!(cfg.wpm, 420);
    assert!(cfg.start_paused);
    assert_eq!(cfg.pauses, PauseLevel::Medium);
}

#[test]
fn merge_with_several_keys_set() {
    let raw = RawConfig {
        wpm: Some(500),
        start_paused: Some(false),
        pauses: Some("high".to_string()),
        ..RawConfig::default()
    };
    let cfg = merge(Config::default(), raw).unwrap();
    assert_eq!(cfg.wpm, 500);
    assert!(!cfg.start_paused);
    assert_eq!(cfg.pauses, PauseLevel::High);
}

#[test]
fn merge_rejects_unknown_pause_level() {
    let raw = RawConfig { pauses: Some("extreme".to_string()), ..RawConfig::default() };
    let err = merge(Config::default(), raw).unwrap_err();
    assert!(err.contains("extreme"));
    assert_eq!(err, "unknown pauses value `extreme` (expected off, low, medium, or high)");
}

#[test]
fn merge_reports_pauses_before_focal_and_theme() {
    let raw = RawConfig {
        pauses: Some("loud".to_string()),
        focal: Some("up".to_string()),
        theme: Some("neon".to_string()),
        ..RawConfig::default()
    };
    let err = merge(Config::default(), raw).unwrap_err();
    assert!(err.starts_with("unknown pauses value `loud`"));
    let raw = RawConfig { focal: Some("Up".to_string()), theme: Some("neon".to_string()), ..RawConfig::default() };
    let err = merge(Config::default(), raw).unwrap_err();
    assert_eq!(err, "unknown focal value `up` (expected left, middle, or right)");
    let raw = RawConfig { theme: Some("NEON".to_string()), ..RawConfig::default() };
    let err = merge(Config::default(), raw).unwrap_err();
    assert_eq!(err, "unknown theme `neon` (expected auto, dark, light, solarized, or dracula)");
}

#[test]
fn merge_sets_focal_theme_and_narration() {
    let raw = RawConfig {
        narrate: Some(true),
        focal: Some("Center".to_string()),
        theme: Some("Solar".to_string()),
        ..RawConfig::default()
    };
    let cfg = merge(Config::default(), raw).unwrap();
    assert!(cfg.narrate);
    assert_eq!(cfg.focal, Focal::Middle);
    assert_eq!(cfg.theme, ThemeName::Solarized);
    assert_eq!(cfg.wpm, 300);
}

#[test]
fn focal_aliases() {
    assert_eq!(parse_focal("left").unwrap(), Focal::Left);
    assert_eq!(parse_focal("L").unwrap(), Focal::Left);
    assert_eq!(parse_focal("MIDDLE").unwrap(), Focal::Middle);
    assert_eq!(parse_focal("m").unwrap(), Focal::Middle);
    assert_eq!(parse_focal("Right").unwrap(), Focal::Right);
    assert_eq!(parse_focal("r").unwrap(), Focal::Right);
    assert!(parse_focal("top").is_err());
    assert!(parse_focal("").is_err());
}

#[test]
fn pause_level_aliases() {
    assert_eq!(parse_pause_level("none").unwrap(), PauseLevel::Off);
    assert_eq!(parse_pause_level("0").unwrap(), PauseLevel::Off);
    assert_eq!(parse_pause_level("small").unwrap(), PauseLevel::Low);
    assert_eq!(parse_pause_level("Med").unwrap(), PauseLevel::Medium);
    assert_eq!(parse_pause_level("normal").unwrap(), PauseLevel::Medium);
    assert_eq!(parse_pause_level("BIG").unwrap(), PauseLevel::High);
    assert_eq!(parse_pause_level("long").unwrap(), PauseLevel::High);
    assert_eq!(
        parse_pause_level("Extreme").unwrap_err(),
        "unknown pauses value `extreme` (expected off, low, medium, or high)"
    );
}

/// Reads the keys of a config file into the library's raw settings.
fn raw_from_toml(s: &str) -> RawConfig {
    let t: toml::Table = toml::from_str(s).unwrap();
    let text = |k: &str| t.get(k).and_then(|v| v.as_str()).map(|v| v.to_string());
    RawConfig {
        wpm: t.get("wpm").and_then(|v| v.as_integer()).map(|n| u32::try_from(n).unwrap()),
        start_paused: t.get("start_paused").and_then(|v| v.as_bool()),
        narrate: t.get("narrate").and_then(|v| v.as_bool()),
        pauses: text("pauses"),
        focal: text("focal"),
        theme: text("theme"),
    }
}

#[test]
fn partial_override() {
    let raw = raw_from_toml("wpm = 420");
    let cfg = merge(Config::default(), raw).unwrap();
    assert_eq!(cfg.wpm, 420);
    assert!(cfg.start_paused);
    assert_eq!(cfg.pauses, PauseLevel::Medium);
}

#[test]
fn full_override() {
    let raw = raw_from_toml("wpm = 500\nstart_paused = false\npauses = \"high\"");
    let cfg = merge(Config::default(), raw).unwrap();
    assert_eq!(cfg.wpm, 500);
    assert!(!cfg.start_paused);
    assert_eq!(cfg.pauses, PauseLevel::High);
}

#[test]
fn bad_pauses_value_rejected() {
    let raw = raw_from_toml("pauses = \"extreme\"");
    let err = merge(Config::default(), raw).unwrap_err();
    assert!(err.contains("extreme"));
}

#[test]
fn unknown_keys_rejected() {
    let raw = raw_from_toml("wpm = 250\nfuture_option = true");
    assert_eq!(raw.wpm, Some(250));
}

#[test]
fn config_path_precedence() {
    assert_eq!(config_path_from(Some("/etc/echo.toml"), Some("/x"), Some("/home/u")).as_deref(), Some("/etc/echo.toml"));
    assert_eq!(config_path_from(None, Some("/x"), Some("/home/u")).as_deref(), Some("/x/echo/config.toml"));
    assert_eq!(config_path_from(None, Some("/x/"), None).as_deref(), Some("/x/echo/config.toml"));
    assert_eq!(config_path_from(None, None, Some("/home/u")).as_deref(), Some("/home/u/.config/echo/config.toml"));
    assert_eq!(config_path_from(None, None, None), None);
    assert_eq!(join_path("", "a/b"), "a/b");
    assert_eq!(
        std::path::PathBuf::from(join_path("/home/u", ".config/echo/config.toml")),
        std::path::PathBuf::from("/home/u").join(".config/echo/config.toml")
    );
}
