use traac::glob::{chars_of, glob_matches};
use traac::players::is_ignored;

#[test]
fn plain_pattern_matches_only_itself() {
    assert!(glob_matches("vlc", "vlc"));
    assert!(!glob_matches("vlc", "vlc2"));
    assert!(!glob_matches("vlc", "vl"));
    assert!(!glob_matches("vlc", "VLC"));
}

#[test]
fn star_matches_every_name() {
    assert!(glob_matches("*", ""));
    assert!(glob_matches("*", "spotify"));
}

#[test]
fn prefix_star_matches_instances() {
    assert!(glob_matches("firefox*", "firefox.instance_1_1168"));
    assert!(glob_matches("firefox.*", "firefox.instance_1_1168"));
    assert!(!glob_matches("firefox.*", "firefox"));
    assert!(!glob_matches("chromium.*", "firefox.instance_1_1168"));
}

#[test]
fn star_in_the_middle_and_repeated() {
    assert!(glob_matches("a*c", "abbbc"));
    assert!(glob_matches("a*c", "ac"));
    assert!(!glob_matches("a*c", "abcd"));
    assert!(glob_matches("**", "xyz"));
    assert!(glob_matches("*b*", "abc"));
    assert!(!glob_matches("*b*", "acd"));
}

#[test]
fn empty_pattern_matches_only_empty_name() {
    assert!(glob_matches("", ""));
    assert!(!glob_matches("", "a"));
}

#[test]
fn chars_of_splits_into_characters() {
    assert_eq!(chars_of("añb"), vec!['a', 'ñ', 'b']);
}

#[test]
fn ignore_list_uses_globs() {
    let patterns = vec!["vlc".to_string(), "firefox.*".to_string(), "chromium.*".to_string()];
    assert!(is_ignored(&"vlc".to_string(), &patterns));
    assert!(is_ignored(&"firefox.instance_1_1168".to_string(), &patterns));
    assert!(!is_ignored(&"spotify".to_string(), &patterns));
    assert!(!is_ignored(&"spotify".to_string(), &Vec::new()));
}
