use traac::clock::Timestamp;
use traac::config::Config;
use traac::players::TrackInfo;
use traac::screen::{view_items, ScreenItem};
use traac::state::App;
use traac::update::{step, Message};

fn at(secs: i64) -> Timestamp {
    Timestamp { secs: 1_700_000_000 + secs, nanos: 0 }
}

fn names(items: &[ScreenItem]) -> Vec<String> {
    items
        .iter()
        .map(|i| match i {
            ScreenItem::CoverBytes(_) => "cover-bytes".to_string(),
            ScreenItem::CoverFile(p) => format!("cover-file {}", p),
            ScreenItem::Artist(a) => format!("artist {}", a),
            ScreenItem::Title(t) => format!("title {}", t),
            ScreenItem::Album(a) => format!("album {}", a),
            ScreenItem::NowPlayingSent => "now-playing".to_string(),
            ScreenItem::Scrobbled => "scrobbled".to_string(),
            ScreenItem::Verified => "verified".to_string(),
            ScreenItem::VerificationPending => "pending".to_string(),
            ScreenItem::NoTrack => "no-track".to_string(),
            ScreenItem::PlayersHeader => "players".to_string(),
            ScreenItem::Player { name, ignored } => format!("player {} {}", name, ignored),
            ScreenItem::Error(e) => format!("error {}", e),
            ScreenItem::MissingCredentials => "missing".to_string(),
            ScreenItem::CredentialsHint => "hint".to_string(),
            ScreenItem::GettingToken => "getting".to_string(),
            ScreenItem::AuthInProgress => "in-progress".to_string(),
            ScreenItem::OpenAuthPage(u) => format!("open {}", u),
            ScreenItem::AuthorizeHint => "authorize".to_string(),
            ScreenItem::AttemptingAuth(n) => format!("attempt {}", n),
            ScreenItem::AwaitingAuthorization => "awaiting".to_string(),
            ScreenItem::CompleteManually => "manual".to_string(),
            ScreenItem::WaitingForAuthorization => "waiting".to_string(),
        })
        .collect()
}

#[test]
fn hidden_window_shows_nothing() {
    let mut app = App::new(Config::default(), None);
    app.visible = false;
    assert!(view_items(&app).is_empty());
}

#[test]
fn fresh_window_without_credentials() {
    let app = App::new(Config::default(), None);
    assert_eq!(names(&view_items(&app)), vec!["no-track", "missing", "hint"]);
}

#[test]
fn authorisation_in_progress() {
    let mut c = Config::default();
    c.lastfm.api_key = "k".to_string();
    c.lastfm.api_secret = "s".to_string();
    let mut app = App::new(c, None);
    assert_eq!(names(&view_items(&app)), vec!["no-track", "getting"]);
    step(&mut app, Message::Tick, at(0));
    step(&mut app, Message::AuthComplete(Ok(("tok".to_string(), "http://auth".to_string()))), at(0));
    assert_eq!(
        names(&view_items(&app)),
        vec!["no-track", "in-progress", "open http://auth", "authorize", "awaiting", "manual"]
    );
    step(&mut app, Message::Tick, at(1));
    assert_eq!(
        names(&view_items(&app)),
        vec!["no-track", "in-progress", "open http://auth", "authorize", "attempt 1", "manual"]
    );
    app.auth_token = None;
    assert_eq!(names(&view_items(&app)), vec!["no-track", "waiting"]);
}

#[test]
fn track_players_and_error() {
    let mut c = Config::default();
    c.lastfm.session_key = Some("sk".to_string());
    c.general.ignored_players = vec!["vlc".to_string(), "firefox.*".to_string()];
    c.general.scrobble_sanity_check = true;
    let mut app = App::new(c, None);
    app.all_players = vec!["spotify".to_string(), "vlc".to_string(), "firefox.instance_1_1168".to_string()];
    let t = TrackInfo {
        artist: "A".to_string(),
        title: "T".to_string(),
        album: None,
        duration: Some(100),
        art_url: Some("file://file:///c.png".to_string()),
    };
    step(&mut app, Message::MprisTrackChanged(t), at(0));
    step(&mut app, Message::ScrobbleSent(Ok(())), at(0));
    step(&mut app, Message::AppError("bad".to_string()), at(0));
    assert_eq!(
        names(&view_items(&app)),
        vec![
            "cover-file /c.png",
            "artist A",
            "title T",
            "scrobbled",
            "pending",
            "players",
            "player spotify false",
            "player vlc true",
            "player firefox.instance_1_1168 true",
            "error bad",
        ]
    );
}
