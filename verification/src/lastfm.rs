//! The Last.fm side: the track information the web service answers with, the
//! client handle, and the addresses the scrobbler asks for.
use vstd::prelude::*;
use vstd::string::*;
use std::sync::Arc;
use last_fm_rs::{Client, NowPlaying, Scrobble};
use crate::config::opt_str_view;

verus! {

broadcast use vstd::string::group_string_axioms;

/// Name of an artist as `track.getInfo` reports it.
#[derive(Debug, Clone)]
pub struct ArtistInfo {
    pub name: String,
}

/// One cover image: its address and its size label.
#[derive(Debug, Clone)]
pub struct ImageInfo {
    pub url: String,
    pub size: String,
}

/// The album a track belongs to, with its cover images from small to large.
#[derive(Debug, Clone)]
pub struct AlbumInfo {
    pub title: String,
    pub artist: String,
    pub image: Vec<ImageInfo>,
}

#[derive(Debug, Clone)]
pub struct Tag {
    pub name: String,
}

#[derive(Debug, Clone)]
pub struct TopTags {
    pub tag: Vec<Tag>,
}

#[derive(Debug, Clone)]
pub struct Wiki {
    pub summary: String,
    pub content: String,
}

/// What `track.getInfo` tells of a track.
#[derive(Debug, Clone)]
pub struct Track {
    pub name: String,
    pub artist: ArtistInfo,
    pub url: String,
    pub listeners: String,
    pub playcount: String,
    pub duration: Option<u64>,
    pub album: Option<AlbumInfo>,
    pub toptags: Option<TopTags>,
    pub wiki: Option<Wiki>,
}

/// The address of the largest (last listed) cover image of `track`, if it has one.
pub open spec fn cover_url(track: Track) -> Option<Seq<char>> {
    match track.album {
        Some(album) => if album.image@.len() > 0 {
            Some(album.image@.last().url@)
        } else {
            None
        },
        None => None,
    }
}

impl Track {
    /// The address of the largest (last listed) cover image, if there is one.
    pub fn cover_url(&self) -> (r: Option<String>)
        ensures
            opt_str_view(r) == cover_url(*self),
    {
        match &self.album {
            Some(album) => {
                let n = album.image.len();
                if n > 0 {
                    Some(album.image[n - 1].url.clone())
                } else {
                    None
                }
            },
            None => None,
        }
    }
}

#[verifier::external_type_specification]
#[verifier::external_body]
pub struct ExLastFmError(last_fm_rs::Error);

/// The page where the user grants access: Last.fm's authorisation address
/// with the API key and the token.
pub open spec fn auth_page(api_key: Seq<char>, token: Seq<char>) -> Seq<char> {
    "http://www.last.fm/api/auth/?api_key="@ + api_key + "&token="@ + token
}

/// The credentials of a Last.fm client: the application's key and secret,
/// and the user's session once there is one. The client itself is built
/// from them where a request is made.
pub struct LastFm {
    api_key: String,
    api_secret: String,
    session_key: Option<String>,
}

pub ghost struct LastFmView {
    pub api_key: Seq<char>,
    pub api_secret: Seq<char>,
    pub session_key: Option<Seq<char>>,
}

impl View for LastFm {
    type V = LastFmView;

    closed spec fn view(&self) -> LastFmView {
        LastFmView {
            api_key: self.api_key@,
            api_secret: self.api_secret@,
            session_key: opt_str_view(self.session_key),
        }
    }
}

/// Builds a `last_fm_rs::Client` for the key and secret with
/// `Client::new` (Last.fm mode) and calls its `get_auth_url` with the
/// token. In Last.fm mode that call returns `Ok` of
/// `http://www.last.fm/api/auth/?api_key={key}&token={token}`.
/// (Building the client's HTTP client panics where no TLS backend can be set up.)
#[verifier::external_body]
fn client_auth_url(api_key: &String, api_secret: &String, token: &String) -> (r: Result<String, last_fm_rs::Error>)
    ensures
        r is Ok,
        r->Ok_0@ == auth_page(api_key@, token@),
{
    Client::new(api_key.clone(), api_secret.clone())
        .get_auth_url(&last_fm_rs::AuthToken { token: token.clone() })
}

/// Whether `b` is kept as it is by percent-encoding: an ASCII letter or
/// digit, or one of `-`, `.`, `_`, `~`.
pub open spec fn unreserved(b: u8) -> bool {
    ||| 48 <= b <= 57
    ||| 65 <= b <= 90
    ||| 97 <= b <= 122
    ||| b == 45 || b == 46 || b == 95 || b == 126
}

/// Upper-case hexadecimal digit of `d` (below 16).
pub open spec fn hex_digit(d: u8) -> char {
    if d < 10 {
        (48 + d) as char
    } else {
        (55 + d) as char
    }
}

pub open spec fn encode_byte(b: u8) -> Seq<char> {
    if unreserved(b) {
        seq![b as char]
    } else {
        seq!['%', hex_digit(b / 16), hex_digit(b % 16)]
    }
}

/// Percent-encoding of a byte string.
pub open spec fn percent_encoded(bytes: Seq<u8>) -> Seq<char>
    decreases bytes.len(),
{
    if bytes.len() == 0 {
        Seq::empty()
    } else {
        percent_encoded(bytes.drop_last()) + encode_byte(bytes.last())
    }
}

/// Calls `urlencoding::encode`, which percent-encodes every UTF-8 byte of
/// `s` except ASCII letters, digits and `-`, `.`, `_`, `~`, with upper-case
/// hexadecimal digits.
#[verifier::external_body]
fn url_encode(s: &str) -> (r: String)
    ensures
        r@ == percent_encoded(s.spec_bytes()),
{
    urlencoding::encode(s).into_owned()
}

/// The `track.getInfo` request for `artist` and `track`, answered in JSON.
pub open spec fn track_info_request(api_key: Seq<char>, artist: Seq<char>, track: Seq<char>) -> Seq<char> {
    "https://ws.audioscrobbler.com/2.0/?method=track.getInfo&api_key="@ + api_key
        + "&artist="@ + artist + "&track="@ + track + "&format=json"@
}

#[verifier::external_type_specification]
pub struct ExNowPlaying(last_fm_rs::NowPlaying);

#[verifier::external_type_specification]
pub struct ExScrobble(last_fm_rs::Scrobble);

/// Calls `last_fm_rs::NowPlaying::new`, which sets artist and track and
/// leaves every other field empty.
#[verifier::external_body]
fn new_now_playing(artist: String, track: String) -> (r: NowPlaying)
    ensures
        r.artist == artist,
        r.track == track,
        r.album is None,
        r.track_number is None,
        r.duration is None,
        r.album_artist is None,
{
    NowPlaying::new(artist, track)
}

/// Calls `last_fm_rs::NowPlaying::with_album`, which sets the album and
/// keeps the other fields.
#[verifier::external_body]
fn now_playing_with_album(np: NowPlaying, album: String) -> (r: NowPlaying)
    ensures
        r == (NowPlaying { album: Some(album), ..np }),
{
    np.with_album(album)
}

/// Calls `last_fm_rs::Scrobble::new`, which sets artist, track and
/// timestamp and leaves every other field empty.
#[verifier::external_body]
fn new_scrobble(artist: String, track: String, timestamp: u64) -> (r: Scrobble)
    ensures
        r.artist == artist,
        r.track == track,
        r.timestamp == timestamp,
        r.album is None,
        r.track_number is None,
        r.duration is None,
        r.album_artist is None,
{
    Scrobble::new(artist, track, timestamp)
}

/// Calls `last_fm_rs::Scrobble::with_album`, which sets the album and keeps
/// the other fields.
#[verifier::external_body]
fn scrobble_with_album(sc: Scrobble, album: String) -> (r: Scrobble)
    ensures
        r == (Scrobble { album: Some(album), ..sc }),
{
    sc.with_album(album)
}

/// The "now playing" notice for a track: artist, title and, where known, album.
pub fn now_playing_request(artist: &str, track: &str, album: Option<&str>) -> (r: NowPlaying)
    ensures
        r.artist@ == artist@,
        r.track@ == track@,
        match album {
            Some(a) => r.album is Some && r.album->0@ == a@,
            None => r.album is None,
        },
        r.track_number is None,
        r.duration is None,
        r.album_artist is None,
{
    let np = new_now_playing(String::from_str(artist), String::from_str(track));
    match album {
        Some(a) => now_playing_with_album(np, String::from_str(a)),
        None => np,
    }
}

/// The scrobble of a track played at `timestamp` (seconds since the epoch):
/// artist, title and, where known, album.
pub fn scrobble_request_at(artist: &str, track: &str, album: Option<&str>, timestamp: u64) -> (r: Scrobble)
    ensures
        r.artist@ == artist@,
        r.track@ == track@,
        r.timestamp == timestamp,
        match album {
            Some(a) => r.album is Some && r.album->0@ == a@,
            None => r.album is None,
        },
        r.track_number is None,
        r.duration is None,
        r.album_artist is None,
{
    let sc = new_scrobble(String::from_str(artist), String::from_str(track), timestamp);
    match album {
        Some(a) => scrobble_with_album(sc, String::from_str(a)),
        None => sc,
    }
}

/// The scrobble of a track played now.
pub fn scrobble_request(artist: &str, track: &str, album: Option<&str>) -> (r: Scrobble)
    ensures
        r.artist@ == artist@,
        r.track@ == track@,
        exists|t: crate::clock::Timestamp| crate::clock::well_formed(t) && r.timestamp == t.secs,
        match album {
            Some(a) => r.album is Some && r.album->0@ == a@,
            None => r.album is None,
        },
        r.track_number is None,
        r.duration is None,
        r.album_artist is None,
{
    let t = crate::clock::now();
    scrobble_request_at(artist, track, album, t.secs as u64)
}

/// Why the authorisation page could not be formed.
#[derive(Debug)]
pub enum LastFmError {
    /// The client is not in Last.fm mode.
    NotLastFmMode,
}

impl LastFm {
    /// A client for the application's key and secret, without a session.
    pub fn new(api_key: String, api_secret: String) -> (r: LastFm)
        ensures
            r@ == (LastFmView { api_key: api_key@, api_secret: api_secret@, session_key: None }),
    {
        LastFm { api_key, api_secret, session_key: None }
    }

    /// The same client, now holding the session key `session_key`.
    pub fn with_session_key(self, session_key: String) -> (r: LastFm)
        ensures
            r@ == (LastFmView { api_key: self@.api_key, api_secret: self@.api_secret, session_key: Some(session_key@) }),
    {
        LastFm { api_key: self.api_key, api_secret: self.api_secret, session_key: Some(session_key) }
    }

    /// The key the client is built with.
    pub fn api_key(&self) -> (r: &String)
        ensures
            r@ == self@.api_key,
    {
        &self.api_key
    }

    /// The secret the client is built with.
    pub fn api_secret(&self) -> (r: &String)
        ensures
            r@ == self@.api_secret,
    {
        &self.api_secret
    }

    /// The session the client holds, if any.
    pub fn session_key(&self) -> (r: &Option<String>)
        ensures
            opt_str_view(*r) == self@.session_key,
    {
        &self.session_key
    }

    /// The page where the user grants this application access for `token`.
    pub fn get_auth_url(&self, token: &String) -> (r: Result<String, LastFmError>)
        ensures
            r is Ok,
            r->Ok_0@ == auth_page(self@.api_key, token@),
    {
        match client_auth_url(&self.api_key, &self.api_secret, token) {
            Ok(url) => Ok(url),
            Err(_) => Err(LastFmError::NotLastFmMode),
        }
    }

    /// The `track.getInfo` request for `artist` and `track`, both percent-encoded.
    pub fn track_info_url(&self, artist: &str, track: &str) -> (r: String)
        ensures
            r@ == track_info_request(
                self@.api_key,
                percent_encoded(artist.spec_bytes()),
                percent_encoded(track.spec_bytes()),
            ),
    {
        let mut url = String::from_str("https://ws.audioscrobbler.com/2.0/?method=track.getInfo&api_key=");
        url.append(self.api_key.as_str());
        url.append("&artist=");
        let a = url_encode(artist);
        url.append(a.as_str());
        url.append("&track=");
        let t = url_encode(track);
        url.append(t.as_str());
        url.append("&format=json");
        url
    }
}

/// Calls `Arc::clone`: a second handle on the same client.
#[verifier::external_body]
pub(crate) fn share(client: &Arc<LastFm>) -> (r: Arc<LastFm>)
    ensures
        r == *client,
{
    Arc::clone(client)
}

} // verus!
