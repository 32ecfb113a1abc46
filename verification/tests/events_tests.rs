use traac::config::{Anchor, Config, Position};
use traac::events::{
    events_on_discovery, message_for_event, messages_for_menu_item, messages_for_tray_event, watch_messages,
    watched_patterns, PlayerEvent, WatchInput,
};
use traac::layout::{layer_anchor, layer_margin, TraacApp};
use traac::players::Metadata;
use traac::update::Message;

fn meta() -> Metadata {
    Metadata {
        artists: Some(vec!["A".to_string()]),
        title: Some("T".to_string()),
        album_name: None,
        length_in_microseconds: Some(2_000_000),
        art_url: None,
    }
}

#[test]
fn player_events_become_messages() {
    match message_for_event(PlayerEvent::TrackChanged(meta())) {
        Message::MprisTrackChanged(t) => {
            assert_eq!(t.artist, "A");
            assert_eq!(t.duration, Some(2));
        }
        _ => panic!("expected a track change"),
    }
    assert!(matches!(message_for_event(PlayerEvent::Playing), Message::MprisStatusChanged(true)));
    assert!(matches!(message_for_event(PlayerEvent::Paused), Message::MprisStatusChanged(false)));
    assert!(matches!(message_for_event(PlayerEvent::Stopped), Message::MprisStopped));
    assert!(matches!(message_for_event(PlayerEvent::PlayerShutDown), Message::MprisStopped));
    assert!(matches!(message_for_event(PlayerEvent::Other), Message::NoOp));
}

#[test]
fn discovery_reports_track_then_state() {
    let v = events_on_discovery(Some(meta()), true);
    assert_eq!(v.len(), 2);
    assert!(matches!(v[1], PlayerEvent::Playing));
    let v = events_on_discovery(Some(meta()), false);
    assert!(matches!(v[1], PlayerEvent::Paused));
    assert!(events_on_discovery(None, true).is_empty());
}

#[test]
fn tray_and_menu() {
    let v = messages_for_tray_event(true);
    assert!(matches!(v[0], Message::ToggleWindow));
    assert!(matches!(v[1], Message::TrayEvent));
    assert_eq!(messages_for_tray_event(false).len(), 1);
    let v = messages_for_menu_item("show_hide");
    assert!(matches!(v[0], Message::ToggleWindow));
    let v = messages_for_menu_item("quit");
    assert!(matches!(v[0], Message::Quit));
    assert!(matches!(v[1], Message::TrayMenuEvent));
    let v = messages_for_menu_item("other");
    assert_eq!(v.len(), 1);
}

#[test]
fn watcher_gets_entries_as_written() {
    let names = vec!["vlc".to_string(), "".to_string(), "a,b".to_string(), ",".to_string(), "firefox.*".to_string()];
    assert_eq!(
        watched_patterns(&names),
        vec!["vlc".to_string(), "a,b".to_string(), ",".to_string(), "firefox.*".to_string()]
    );
    assert!(watched_patterns(&vec![]).is_empty());
}

#[test]
fn window_corners_and_margins() {
    let e = layer_anchor(Anchor::BottomRight);
    assert!(e.bottom && e.right && !e.top && !e.left);
    let e = layer_anchor(Anchor::TopLeft);
    assert!(e.top && e.left && !e.bottom && !e.right);
    assert_eq!(layer_margin(Position { anchor: Anchor::TopLeft, x: 5, y: 7 }), (7, 0, 0, 5));
    assert_eq!(layer_margin(Position { anchor: Anchor::TopRight, x: 5, y: 7 }), (7, 5, 0, 0));
    assert_eq!(layer_margin(Position { anchor: Anchor::BottomLeft, x: 5, y: 7 }), (0, 0, 7, 5));
    assert_eq!(layer_margin(Position { anchor: Anchor::BottomRight, x: 5, y: 7 }), (0, 5, 7, 0));
}

#[test]
fn first_window() {
    let app = TraacApp::new(Config::default());
    assert_eq!(app.title(), "traac");
    assert_eq!(app.heading(), "traac - last.fm scrobbler");
    assert_eq!(app.corner(), Anchor::BottomRight);
    assert_eq!(app.offset(), (20, 20));
    assert_eq!(app.namespace(), "traac");
    assert!(!app.exclusive_zone());
    assert_eq!(app.size(), (300, 100));
}

#[test]
fn watcher_messages_in_order() {
    let v = watch_messages(WatchInput::Found { metadata: Some(meta()), playing: false });
    assert_eq!(v.len(), 2);
    match &v[0] {
        Message::MprisTrackChanged(t) => assert_eq!(t.title, "T"),
        _ => panic!("expected the track first"),
    }
    assert!(matches!(v[1], Message::MprisStatusChanged(false)));
    assert!(watch_messages(WatchInput::Found { metadata: None, playing: true }).is_empty());
    let v = watch_messages(WatchInput::Event(PlayerEvent::Playing));
    assert!(matches!(v[0], Message::MprisStatusChanged(true)));
    let v = watch_messages(WatchInput::EventsEnded);
    assert!(matches!(v[0], Message::MprisStopped));
    assert!(watch_messages(WatchInput::NotFound).is_empty());
}

#[test]
fn watcher_ignores_other_player_events() {
    let v = watch_messages(WatchInput::Event(PlayerEvent::Other));
    assert_eq!(v.len(), 1);
    assert!(matches!(v[0], Message::NoOp));
    let v = watch_messages(WatchInput::Event(PlayerEvent::PlayerShutDown));
    assert_eq!(v.len(), 1);
    assert!(matches!(v[0], Message::MprisStopped));
}
