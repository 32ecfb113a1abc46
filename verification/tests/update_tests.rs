use traac::clock::{seconds_between, Timestamp};
use traac::config::Config;
use traac::lastfm::{AlbumInfo, ArtistInfo, ImageInfo, Track};
use traac::players::TrackInfo;
use traac::state::App;
use traac::update::{step, update, Effect, Message};

fn at(secs: i64) -> Timestamp {
    Timestamp { secs: 1_700_000_000 + secs, nanos: 0 }
}

fn creds() -> Config {
    let mut c = Config::default();
    c.lastfm.api_key = "key".to_string();
    c.lastfm.api_secret = "secret".to_string();
    c
}

fn signed_in() -> App {
    let mut c = creds();
    c.lastfm.session_key = Some("sk".to_string());
    c.lastfm.username = Some("me".to_string());
    App::new(c, None)
}

fn track(duration: Option<u64>) -> TrackInfo {
    TrackInfo {
        artist: "Artist".to_string(),
        title: "Song".to_string(),
        album: Some("Album".to_string()),
        duration,
        art_url: Some("https://img/cover.jpg".to_string()),
    }
}

#[test]
fn seconds_between_cuts_toward_zero() {
    let a = Timestamp { secs: 12, nanos: 900_000_000 };
    let b = Timestamp { secs: 10, nanos: 200_000_000 };
    assert_eq!(seconds_between(a, b), 2);
    assert_eq!(seconds_between(b, a), -2);
    assert_eq!(seconds_between(a, a), 0);
    let c = Timestamp { secs: 13, nanos: 100_000_000 };
    assert_eq!(seconds_between(c, b), 2);
}

#[test]
fn new_state_without_session_has_no_client() {
    let app = App::new(creds(), Some("/tmp/c.toml".to_string()));
    assert!(app.lastfm.is_none());
    assert_eq!(app.config_path.as_deref(), Some("/tmp/c.toml"));
    assert!(app.visible);
    assert_eq!(app.auth_attempts, 0);
}

#[test]
fn new_state_with_session_builds_client() {
    let app = signed_in();
    let c = app.lastfm.as_ref().unwrap();
    assert_eq!(c.api_key(), "key");
    assert_eq!(c.api_secret(), "secret");
    assert_eq!(c.session_key().as_deref(), Some("sk"));
}

#[test]
fn tick_with_credentials_starts_authorisation() {
    let mut app = App::new(creds(), None);
    let e = step(&mut app, Message::Tick, at(0));
    assert_eq!(e.len(), 1);
    assert!(matches!(e[0], Effect::RequestToken { .. }));
    assert!(app.lastfm.is_some());
    // The token is being fetched: a second tick asks nothing more.
    let e = step(&mut app, Message::Tick, at(1));
    assert!(e.is_empty());
}

#[test]
fn tick_without_credentials_does_nothing() {
    let mut app = App::new(Config::default(), None);
    let e = step(&mut app, Message::Tick, at(0));
    assert!(e.is_empty());
    assert!(app.lastfm.is_none());
}

#[test]
fn authorisation_attempts_wait_three_seconds_and_stop_at_twenty() {
    let mut app = App::new(creds(), None);
    step(&mut app, Message::Tick, at(0));
    step(&mut app, Message::AuthComplete(Ok(("tok".to_string(), "http://auth".to_string()))), at(0));
    assert_eq!(app.auth_token.as_deref(), Some("tok"));
    assert_eq!(app.auth_url.as_deref(), Some("http://auth"));
    let e = step(&mut app, Message::Tick, at(1));
    assert_eq!(e.len(), 1);
    match &e[0] {
        Effect::CompleteAuthentication { token, .. } => assert_eq!(token, "tok"),
        _ => panic!("expected the session request"),
    }
    assert_eq!(app.auth_attempts, 1);
    let e = step(&mut app, Message::Tick, at(3));
    assert!(e.is_empty());
    assert_eq!(app.auth_attempts, 1);
    let e = step(&mut app, Message::Tick, at(4));
    assert_eq!(e.len(), 1);
    assert_eq!(app.auth_attempts, 2);
    let mut t = 4;
    for _ in 0..40 {
        t += 3;
        step(&mut app, Message::Tick, at(t));
    }
    assert_eq!(app.auth_attempts, 20);
    let e = step(&mut app, Message::Tick, at(t + 100));
    assert!(e.is_empty());
}

#[test]
fn auth_failure_is_reported() {
    let mut app = App::new(creds(), None);
    step(&mut app, Message::AuthComplete(Err("offline".to_string())), at(0));
    assert_eq!(app.error_message.as_deref(), Some("offline"));
    step(&mut app, Message::AuthSessionComplete(Err("denied".to_string())), at(0));
    assert_eq!(app.error_message.as_deref(), Some("Auth failed: denied"));
}

#[test]
fn login_completes_after_the_session_is_saved() {
    let mut app = App::new(creds(), None);
    step(&mut app, Message::Tick, at(0));
    step(&mut app, Message::AuthComplete(Ok(("tok".to_string(), "http://auth".to_string()))), at(0));
    let e = step(&mut app, Message::AuthSessionComplete(Ok(("sk".to_string(), "me".to_string()))), at(5));
    assert_eq!(e.len(), 1);
    assert!(matches!(e[0], Effect::SaveConfig { report: true }));
    assert_eq!(app.config.lastfm.session_key.as_deref(), Some("sk"));
    assert_eq!(app.config.lastfm.username.as_deref(), Some("me"));
    step(&mut app, Message::SessionSaved(Err("disk full".to_string())), at(5));
    assert_eq!(app.error_message.as_deref(), Some("Failed to save config: disk full"));
    assert!(app.auth_token.is_some());
    step(&mut app, Message::SessionSaved(Ok(())), at(6));
    assert!(app.error_message.is_none());
    assert!(app.auth_token.is_none());
    assert!(app.auth_url.is_none());
    // Signed in now: no further authorisation.
    let e = step(&mut app, Message::Tick, at(10));
    assert!(e.is_empty());
}

#[test]
fn complete_auth_by_hand() {
    let mut app = App::new(creds(), None);
    let e = step(&mut app, Message::CompleteAuth, at(0));
    assert!(e.is_empty());
    step(&mut app, Message::Tick, at(0));
    step(&mut app, Message::AuthComplete(Ok(("tok".to_string(), "u".to_string()))), at(0));
    let e = step(&mut app, Message::CompleteAuth, at(0));
    assert_eq!(e.len(), 1);
    assert!(matches!(e[0], Effect::CompleteAuthentication { .. }));
}

#[test]
fn scrobble_at_half_of_a_short_track() {
    let mut app = signed_in();
    let e = step(&mut app, Message::MprisTrackChanged(track(Some(300))), at(0));
    assert_eq!(e.len(), 3);
    assert!(matches!(e[0], Effect::Notify { .. }));
    assert!(matches!(e[1], Effect::NowPlaying { .. }));
    assert!(matches!(e[2], Effect::FetchTrackInfo { .. }));
    assert!(step(&mut app, Message::Tick, at(149)).is_empty());
    let e = step(&mut app, Message::Tick, at(150));
    assert_eq!(e.len(), 1);
    match &e[0] {
        Effect::Scrobble { track, .. } => assert_eq!(track.title, "Song"),
        _ => panic!("expected a scrobble"),
    }
    assert!(app.scrobble_sent);
    assert!(step(&mut app, Message::Tick, at(400)).is_empty());
}

#[test]
fn scrobble_after_four_minutes_of_a_long_track() {
    let mut app = signed_in();
    step(&mut app, Message::MprisTrackChanged(track(Some(1000))), at(0));
    assert!(step(&mut app, Message::Tick, at(239)).is_empty());
    assert_eq!(step(&mut app, Message::Tick, at(240)).len(), 1);
}

#[test]
fn no_scrobble_without_length_or_when_disabled() {
    let mut app = signed_in();
    step(&mut app, Message::MprisTrackChanged(track(None)), at(0));
    assert!(step(&mut app, Message::Tick, at(10_000)).is_empty());
    let mut app = signed_in();
    app.config.general.scrobble_enabled = false;
    step(&mut app, Message::MprisTrackChanged(track(Some(60))), at(0));
    assert!(step(&mut app, Message::Tick, at(100)).is_empty());
}

#[test]
fn sanity_check_waits_for_confirmation() {
    let mut app = signed_in();
    app.config.general.scrobble_sanity_check = true;
    step(&mut app, Message::MprisTrackChanged(track(Some(60))), at(0));
    assert!(step(&mut app, Message::Tick, at(100)).is_empty());
    let info = Track {
        name: "Song".to_string(),
        artist: ArtistInfo { name: "Artist".to_string() },
        url: "u".to_string(),
        listeners: "1".to_string(),
        playcount: "2".to_string(),
        duration: None,
        album: None,
        toptags: None,
        wiki: None,
    };
    step(&mut app, Message::TrackInfoReceived(Ok(info)), at(100));
    assert!(app.track_verified);
    assert_eq!(step(&mut app, Message::Tick, at(101)).len(), 1);
}

#[test]
fn pause_and_resume_count_played_time() {
    let mut app = signed_in();
    step(&mut app, Message::MprisTrackChanged(track(Some(600))), at(0));
    step(&mut app, Message::MprisStatusChanged(false), at(100));
    assert_eq!(app.track_total_played_secs, 100);
    assert!(app.last_resume_time.is_none());
    // Paused time does not count.
    assert!(step(&mut app, Message::Tick, at(10_000)).is_empty());
    step(&mut app, Message::MprisStatusChanged(true), at(10_000));
    step(&mut app, Message::MprisStatusChanged(true), at(10_050));
    assert!(step(&mut app, Message::Tick, at(10_139)).is_empty());
    assert_eq!(step(&mut app, Message::Tick, at(10_140)).len(), 1);
}

#[test]
fn stopping_clears_the_track() {
    let mut app = signed_in();
    step(&mut app, Message::MprisTrackChanged(track(Some(600))), at(0));
    step(&mut app, Message::NowPlayingSent(Ok(())), at(1));
    assert!(app.now_playing_sent);
    step(&mut app, Message::MprisStopped, at(2));
    assert!(app.current_track.is_none());
    assert!(app.last_resume_time.is_none());
    assert_eq!(app.track_total_played_secs, 0);
    assert!(!app.now_playing_sent);
    assert!(!app.scrobble_sent);
}

#[test]
fn same_track_is_notified_once() {
    let mut app = App::new(Config::default(), None);
    let e = step(&mut app, Message::MprisTrackChanged(track(Some(60))), at(0));
    assert_eq!(e.len(), 1);
    assert_eq!(app.last_notified_track.as_deref(), Some("Artist - Song"));
    let e = step(&mut app, Message::MprisTrackChanged(track(Some(60))), at(5));
    assert!(e.is_empty());
}

#[test]
fn notifications_off_means_no_notification() {
    let mut c = Config::default();
    c.ui.show_notifications = false;
    let mut app = App::new(c, None);
    assert!(step(&mut app, Message::MprisTrackChanged(track(Some(60))), at(0)).is_empty());
}

#[test]
fn local_cover_becomes_the_notification_icon() {
    let mut app = App::new(Config::default(), None);
    let mut t = track(Some(60));
    t.art_url = Some("file:///home/u/cover.png".to_string());
    let e = step(&mut app, Message::MprisTrackChanged(t), at(0));
    match &e[0] {
        Effect::Notify { artist, title, album, icon } => {
            assert_eq!(artist, "Artist");
            assert_eq!(title, "Song");
            assert_eq!(album.as_deref(), Some("Album"));
            assert_eq!(icon.as_deref(), Some("/home/u/cover.png"));
        }
        _ => panic!("expected a notification"),
    }
    let mut app = App::new(Config::default(), None);
    let e = step(&mut app, Message::MprisTrackChanged(track(Some(60))), at(0));
    match &e[0] {
        Effect::Notify { icon, .. } => assert!(icon.is_none()),
        _ => panic!("expected a notification"),
    }
}

fn info_with_cover(url: &str) -> Track {
    Track {
        name: "Song".to_string(),
        artist: ArtistInfo { name: "Artist".to_string() },
        url: "u".to_string(),
        listeners: "1".to_string(),
        playcount: "2".to_string(),
        duration: Some(60),
        album: Some(AlbumInfo {
            title: "Album".to_string(),
            artist: "Artist".to_string(),
            image: vec![
                ImageInfo { url: "small".to_string(), size: "small".to_string() },
                ImageInfo { url: url.to_string(), size: "extralarge".to_string() },
            ],
        }),
        toptags: None,
        wiki: None,
    }
}

#[test]
fn cover_is_fetched_once_then_cached() {
    let mut app = App::new(Config::default(), None);
    let e = step(&mut app, Message::TrackInfoReceived(Ok(info_with_cover("https://img/big.jpg"))), at(0));
    assert_eq!(e.len(), 1);
    match &e[0] {
        Effect::FetchImage { url } => assert_eq!(url, "https://img/big.jpg"),
        _ => panic!("expected a download"),
    }
    step(&mut app, Message::ImageBytesReceived(Ok(("https://img/big.jpg".to_string(), vec![1, 2, 3]))), at(1));
    assert_eq!(app.track_image_bytes, Some(vec![1, 2, 3]));
    app.track_image_bytes = None;
    let e = step(&mut app, Message::TrackInfoReceived(Ok(info_with_cover("https://img/big.jpg"))), at(2));
    assert!(e.is_empty());
    assert_eq!(app.track_image_bytes, Some(vec![1, 2, 3]));
    step(&mut app, Message::ImageBytesReceived(Ok(("https://img/big.jpg".to_string(), vec![9]))), at(3));
    assert_eq!(app.image_cache.get(&"https://img/big.jpg".to_string()), Some(vec![9]));
    // A new track whose player cover is cached shows it at once.
    let mut t = track(Some(60));
    t.art_url = Some("https://img/big.jpg".to_string());
    step(&mut app, Message::MprisTrackChanged(t), at(4));
    assert_eq!(app.track_image_bytes, Some(vec![9]));
}

#[test]
fn empty_cover_address_and_failures_are_ignored() {
    let mut app = App::new(Config::default(), None);
    assert!(step(&mut app, Message::TrackInfoReceived(Ok(info_with_cover(""))), at(0)).is_empty());
    assert!(app.track_verified);
    step(&mut app, Message::TrackInfoReceived(Err("404".to_string())), at(0));
    assert!(!app.track_verified);
    step(&mut app, Message::ImageBytesReceived(Err("timeout".to_string())), at(0));
    assert!(app.track_image_bytes.is_none());
}

#[test]
fn toggle_ignore_adds_then_removes() {
    let mut app = App::new(Config::default(), None);
    let e = step(&mut app, Message::ToggleIgnore("vlc".to_string()), at(0));
    assert!(matches!(e[0], Effect::SaveConfig { report: false }));
    assert_eq!(app.config.general.ignored_players, vec!["vlc".to_string()]);
    step(&mut app, Message::ToggleIgnore("mpv".to_string()), at(0));
    step(&mut app, Message::ToggleIgnore("vlc".to_string()), at(0));
    assert_eq!(app.config.general.ignored_players, vec!["mpv".to_string()]);
}

#[test]
fn window_quit_and_errors() {
    let mut app = App::new(Config::default(), None);
    step(&mut app, Message::ToggleWindow, at(0));
    assert!(!app.visible);
    let e = step(&mut app, Message::Quit, at(0));
    assert!(matches!(e[0], Effect::Exit));
    step(&mut app, Message::AppError("boom".to_string()), at(0));
    assert_eq!(app.error_message.as_deref(), Some("boom"));
    step(&mut app, Message::ScrobbleSent(Err("rejected".to_string())), at(0));
    assert_eq!(app.error_message.as_deref(), Some("rejected"));
    let e = step(&mut app, Message::OpenAuthUrl("http://x".to_string()), at(0));
    match &e[0] {
        Effect::OpenUrl { url } => assert_eq!(url, "http://x"),
        _ => panic!("expected the browser"),
    }
    assert!(matches!(step(&mut app, Message::SaveConfig, at(0))[0], Effect::SaveConfig { report: false }));
    assert!(step(&mut app, Message::NoOp, at(0)).is_empty());
    assert!(step(&mut app, Message::LayerShell, at(0)).is_empty());
    step(&mut app, Message::AuthUrl("http://a".to_string()), at(0));
    assert_eq!(app.auth_url.as_deref(), Some("http://a"));
    step(&mut app, Message::TrackUpdate(Some(track(None))), at(0));
    assert_eq!(app.current_track.as_ref().unwrap().title, "Song");
}

#[test]
fn update_reads_the_clock() {
    let mut app = App::new(creds(), None);
    let e = update(&mut app, Message::Tick);
    assert!(matches!(e[0], Effect::RequestToken { .. }));
    update(&mut app, Message::MprisStatusChanged(true));
    assert!(app.last_resume_time.unwrap().secs > 1_600_000_000);
}
