use traac::players::{
    find_player, find_player_with_ignore, get_current_track, is_playing, Metadata, PlaybackStatus,
    PlayerCandidate, TrackInfo,
};

fn meta() -> Metadata {
    Metadata {
        artists: Some(vec!["Daft Punk".to_string(), "Pharrell".to_string()]),
        title: Some("Get Lucky".to_string()),
        album_name: Some("Random Access Memories".to_string()),
        length_in_microseconds: Some(369_626_000),
        art_url: Some("file:///tmp/cover.png".to_string()),
    }
}

#[test]
fn from_metadata_takes_first_artist_and_whole_seconds() {
    let t = TrackInfo::from_metadata(&meta()).unwrap();
    assert_eq!(t.artist, "Daft Punk");
    assert_eq!(t.title, "Get Lucky");
    assert_eq!(t.album.as_deref(), Some("Random Access Memories"));
    assert_eq!(t.duration, Some(369));
    assert_eq!(t.art_url.as_deref(), Some("file:///tmp/cover.png"));
}

#[test]
fn from_metadata_fills_in_unknowns() {
    let m = Metadata { artists: None, title: None, album_name: None, length_in_microseconds: None, art_url: None };
    let t = TrackInfo::from_metadata(&m).unwrap();
    assert_eq!(t.artist, "Unknown Artist");
    assert_eq!(t.title, "Unknown Title");
    assert!(t.album.is_none());
    assert!(t.duration.is_none());
}

#[test]
fn from_metadata_empty_artist_list() {
    let m = Metadata { artists: Some(vec![]), title: Some("x".to_string()), album_name: None, length_in_microseconds: Some(999_999), art_url: None };
    let t = TrackInfo::from_metadata(&m).unwrap();
    assert_eq!(t.artist, "Unknown Artist");
    assert_eq!(t.duration, Some(0));
}

#[test]
fn current_track_needs_metadata() {
    assert!(get_current_track(None).is_none());
    assert_eq!(get_current_track(Some(meta())).unwrap().title, "Get Lucky");
}

#[test]
fn playing_only_when_status_is_playing() {
    assert!(is_playing(Some(PlaybackStatus::Playing)));
    assert!(!is_playing(Some(PlaybackStatus::Paused)));
    assert!(!is_playing(Some(PlaybackStatus::Stopped)));
    assert!(!is_playing(None));
}

fn cand(name: &str, status: PlaybackStatus, has_metadata: bool) -> PlayerCandidate {
    PlayerCandidate { name: name.to_string(), status, has_metadata }
}

#[test]
fn find_player_prefers_playing_then_paused_then_track() {
    let list = vec![
        cand("a", PlaybackStatus::Stopped, false),
        cand("b", PlaybackStatus::Stopped, true),
        cand("c", PlaybackStatus::Paused, true),
        cand("d", PlaybackStatus::Playing, true),
        cand("e", PlaybackStatus::Playing, true),
    ];
    assert_eq!(find_player(Ok(list)), Ok(3));
    let list = vec![cand("a", PlaybackStatus::Stopped, false), cand("b", PlaybackStatus::Stopped, true), cand("c", PlaybackStatus::Paused, false)];
    assert_eq!(find_player(Ok(list)), Ok(2));
    let list = vec![cand("a", PlaybackStatus::Stopped, false), cand("b", PlaybackStatus::Stopped, true)];
    assert_eq!(find_player(Ok(list)), Ok(1));
    let list = vec![cand("a", PlaybackStatus::Stopped, false), cand("b", PlaybackStatus::Stopped, false)];
    assert_eq!(find_player(Ok(list)), Ok(0));
}

#[test]
fn find_player_errors() {
    assert_eq!(find_player(Err("no bus".to_string())), Err("D-Bus error: no bus".to_string()));
    assert_eq!(find_player(Ok(vec![])), Err("No player found: No player found".to_string()));
}

#[test]
fn find_player_passes_over_ignored() {
    let list = vec![
        cand("firefox.instance_1_1168", PlaybackStatus::Playing, true),
        cand("spotify", PlaybackStatus::Paused, true),
        cand("vlc", PlaybackStatus::Playing, true),
    ];
    let ignored = vec!["firefox.*".to_string(), "vlc".to_string()];
    assert_eq!(find_player_with_ignore(&list, &ignored), Some(1));
    let all = vec!["*".to_string()];
    assert_eq!(find_player_with_ignore(&list, &all), None);
    assert_eq!(find_player_with_ignore(&list, &vec![]), Some(0));
}
