use traac::lastfm::{now_playing_request, scrobble_request, scrobble_request_at, LastFm};

#[test]
fn auth_page_holds_key_and_token() {
    let c = LastFm::new("KEY".to_string(), "SECRET".to_string());
    let url = c.get_auth_url(&"TOKEN".to_string()).unwrap();
    assert_eq!(url, "http://www.last.fm/api/auth/?api_key=KEY&token=TOKEN");
}

#[test]
fn session_keeps_the_key() {
    let c = LastFm::new("KEY".to_string(), "SECRET".to_string());
    assert!(c.session_key().is_none());
    let c = c.with_session_key("SK".to_string());
    assert_eq!(c.api_key(), "KEY");
    assert_eq!(c.api_secret(), "SECRET");
    assert_eq!(c.session_key().as_deref(), Some("SK"));
    assert_eq!(c.get_auth_url(&"T".to_string()).unwrap(), "http://www.last.fm/api/auth/?api_key=KEY&token=T");
}

#[test]
fn track_info_request_is_percent_encoded() {
    let c = LastFm::new("KEY".to_string(), "S".to_string());
    assert_eq!(
        c.track_info_url("Daft Punk", "Harder, Better"),
        "https://ws.audioscrobbler.com/2.0/?method=track.getInfo&api_key=KEY&artist=Daft%20Punk&track=Harder%2C%20Better&format=json"
    );
    assert_eq!(
        c.track_info_url("Sigur Rós", "a-b_c.d~e"),
        "https://ws.audioscrobbler.com/2.0/?method=track.getInfo&api_key=KEY&artist=Sigur%20R%C3%B3s&track=a-b_c.d~e&format=json"
    );
}

#[test]
fn now_playing_with_and_without_album() {
    let np = now_playing_request("A", "T", Some("L"));
    assert_eq!(np.artist, "A");
    assert_eq!(np.track, "T");
    assert_eq!(np.album.as_deref(), Some("L"));
    assert!(now_playing_request("A", "T", None).album.is_none());
}

#[test]
fn scrobble_carries_the_time() {
    let s = scrobble_request_at("A", "T", Some("L"), 1234);
    assert_eq!(s.timestamp, 1234);
    assert_eq!(s.album.as_deref(), Some("L"));
    let s = scrobble_request("A", "T", None);
    assert!(s.timestamp > 1_600_000_000);
    assert!(s.album.is_none());
}
