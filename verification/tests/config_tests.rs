use traac::config::{Anchor, ColorScheme, Config, Position};

#[test]
fn default_config_matches_documented_values() {
    let c = Config::default();
    assert_eq!(c.lastfm.api_key, "");
    assert_eq!(c.lastfm.api_secret, "");
    assert!(c.lastfm.session_key.is_none());
    assert!(c.lastfm.username.is_none());
    assert!(c.ui.show_notifications);
    assert_eq!(c.ui.color_scheme.base, "#11111b");
    assert_eq!(c.ui.color_scheme.slightly_lighter, "#1e1e2e");
    assert_eq!(c.ui.color_scheme.accent_grey, "#6C7086");
    assert_eq!(c.ui.color_scheme.bright, "#BAC2DE");
    assert_eq!(c.ui.color_scheme.text, "#cdd6f4");
    assert_eq!(c.ui.position.anchor, Anchor::BottomRight);
    assert_eq!(c.ui.position.x, 20);
    assert_eq!(c.ui.position.y, 20);
    assert!(c.general.scrobble_enabled);
    assert_eq!(c.general.poll_interval_secs, 5);
    assert!(c.general.ignored_players.is_empty());
    assert!(!c.general.scrobble_sanity_check);
}

#[test]
fn default_color_scheme_and_position() {
    let cs = ColorScheme::default();
    assert_eq!(cs.text, "#cdd6f4");
    let p = Position::default();
    assert_eq!(p, Position { anchor: Anchor::BottomRight, x: 20, y: 20 });
}

#[test]
fn config_path_inside_config_dir() {
    assert_eq!(Config::config_path_in(Some("/home/u/.config".to_string())), "/home/u/.config/traac/config.toml");
}

#[test]
fn config_path_dir_with_trailing_slash() {
    assert_eq!(Config::config_path_in(Some("/home/u/.config/".to_string())), "/home/u/.config/traac/config.toml");
}

#[test]
fn config_path_without_config_dir_uses_working_dir() {
    assert_eq!(Config::config_path_in(None), "./traac/config.toml");
}

#[test]
fn config_path_empty_dir() {
    assert_eq!(Config::config_path_in(Some(String::new())), "traac/config.toml");
}

#[test]
fn config_path_of_this_user_ends_in_traac_config() {
    let p = Config::config_path();
    assert!(p.ends_with("traac/config.toml"));
}

#[test]
fn resolve_loaded_keeps_parsed_config() {
    let mut c = Config::default();
    c.general.poll_interval_secs = 30;
    c.lastfm.api_key = "key".to_string();
    let r = Config::resolve_loaded(Some(c));
    assert_eq!(r.general.poll_interval_secs, 30);
    assert_eq!(r.lastfm.api_key, "key");
}

#[test]
fn resolve_loaded_falls_back_to_defaults() {
    let r = Config::resolve_loaded(None);
    assert_eq!(r.general.poll_interval_secs, 5);
    assert_eq!(r.ui.position.anchor, Anchor::BottomRight);
}

#[test]
fn credentials_need_key_and_secret() {
    let mut c = Config::default();
    assert!(!c.has_credentials());
    c.lastfm.api_key = "k".to_string();
    assert!(!c.has_credentials());
    c.lastfm.api_secret = "s".to_string();
    assert!(c.has_credentials());
}
