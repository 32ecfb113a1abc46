//! The scrobbler as a state machine: each message changes the state and asks
//! for work that the application performs and answers with a new message.
use vstd::prelude::*;
use vstd::string::*;
use std::sync::Arc;
use crate::clock::{Timestamp, whole_seconds, well_formed, seconds_between, now};
use crate::config::{ConfigView, LastFmConfigView, GeneralConfigView, opt_str_view, strings_view};
use crate::lastfm::{LastFm, LastFmView, Track, cover_url, share};
use crate::players::{TrackInfo, TrackInfoView, clone_opt_string};
use crate::state::{App, AppView, opt_track_view, times_ok};

verus! {

broadcast use vstd::string::group_string_axioms;

/// What happens to the scrobbler: a clock tick, player events, answers of
/// Last.fm and of the application, and clicks.
#[derive(Debug)]
pub enum Message {
    Tick,
    Quit,
    TrackUpdate(Option<TrackInfo>),
    AuthUrl(String),
    /// A token and the page where the user grants access, or the failure.
    AuthComplete(Result<(String, String), String>),
    /// A session key and the user name, or the failure.
    AuthSessionComplete(Result<(String, String), String>),
    /// Whether saving the configuration that holds a new session worked.
    SessionSaved(Result<(), String>),
    SaveConfig,
    OpenAuthUrl(String),
    CompleteAuth,
    NowPlayingSent(Result<(), String>),
    ScrobbleSent(Result<(), String>),
    AppError(String),
    SendNotification(String, String),
    ToggleIgnore(String),
    TrackInfoReceived(Result<Track, String>),
    /// The address and bytes of a cover image, or the failure.
    ImageBytesReceived(Result<(String, Vec<u8>), String>),
    MprisTrackChanged(TrackInfo),
    MprisStatusChanged(bool),
    MprisStopped,
    NoOp,
    TrayEvent,
    TrayMenuEvent,
    ToggleWindow,
    /// A request of the layer shell (anchor, size, margin changes).
    LayerShell,
}

/// Work the application carries out for the state machine, and the message
/// that brings its outcome back.
pub enum Effect {
    /// Ask Last.fm for a token and form the authorisation page: `AuthComplete`.
    RequestToken { client: Arc<LastFm> },
    /// Trade the token for a session: `AuthSessionComplete`.
    CompleteAuthentication { client: Arc<LastFm>, token: String },
    /// Scrobble the track now: `ScrobbleSent`.
    Scrobble { client: Arc<LastFm>, track: TrackInfo },
    /// Announce the track as playing: `NowPlayingSent`.
    NowPlaying { client: Arc<LastFm>, track: TrackInfo },
    /// Ask for the track's information: `TrackInfoReceived`.
    FetchTrackInfo { client: Arc<LastFm>, track: TrackInfo },
    /// Download a cover image: `ImageBytesReceived`.
    FetchImage { url: String },
    /// Show a desktop notification: `NoOp`, or `AppError` on failure.
    Notify { artist: String, title: String, album: Option<String>, icon: Option<String> },
    /// Write the configuration to its file; with `report`, answer `SessionSaved`.
    SaveConfig { report: bool },
    /// Open the address in the browser.
    OpenUrl { url: String },
    /// Leave the application.
    Exit,
}

pub ghost enum EffectView {
    RequestToken { client: LastFmView },
    CompleteAuthentication { client: LastFmView, token: Seq<char> },
    Scrobble { client: LastFmView, track: TrackInfoView },
    NowPlaying { client: LastFmView, track: TrackInfoView },
    FetchTrackInfo { client: LastFmView, track: TrackInfoView },
    FetchImage { url: Seq<char> },
    Notify { artist: Seq<char>, title: Seq<char>, album: Option<Seq<char>>, icon: Option<Seq<char>> },
    SaveConfig { report: bool },
    OpenUrl { url: Seq<char> },
    Exit,
}

impl View for Effect {
    type V = EffectView;

    open spec fn view(&self) -> EffectView {
        match self {
            Effect::RequestToken { client } => EffectView::RequestToken { client: client@ },
            Effect::CompleteAuthentication { client, token } => EffectView::CompleteAuthentication { client: client@, token: token@ },
            Effect::Scrobble { client, track } => EffectView::Scrobble { client: client@, track: track@ },
            Effect::NowPlaying { client, track } => EffectView::NowPlaying { client: client@, track: track@ },
            Effect::FetchTrackInfo { client, track } => EffectView::FetchTrackInfo { client: client@, track: track@ },
            Effect::FetchImage { url } => EffectView::FetchImage { url: url@ },
            Effect::Notify { artist, title, album, icon } => EffectView::Notify {
                artist: artist@,
                title: title@,
                album: opt_str_view(*album),
                icon: opt_str_view(*icon),
            },
            Effect::SaveConfig { report } => EffectView::SaveConfig { report: *report },
            Effect::OpenUrl { url } => EffectView::OpenUrl { url: url@ },
            Effect::Exit => EffectView::Exit,
        }
    }
}

pub open spec fn effects_view(v: Seq<Effect>) -> Seq<EffectView> {
    v.map_values(|e: Effect| e@)
}

/// Authorisation attempts stop after this many.
pub open spec fn max_auth_attempts() -> int {
    20
}

/// Scrobbling never waits longer than this many seconds of playing.
pub open spec fn scrobble_cap() -> u64 {
    240
}

/// Seconds of playing after which a track of `duration` seconds is
/// scrobbled: half of it, or four minutes where that is less.
pub open spec fn scrobble_threshold(duration: u64) -> u64 {
    if duration / 2 < scrobble_cap() {
        duration / 2
    } else {
        scrobble_cap()
    }
}

/// Seconds the current track has played by `now`: what was counted before
/// the last resume, plus the whole seconds since it (added modulo 2^64).
pub open spec fn played_secs(s: AppView, now: Timestamp) -> u64 {
    match s.last_resume_time {
        Some(last) => vstd::wrapping::u64_specs::wrapping_add_signed(
            s.track_total_played_secs,
            whole_seconds(now, last) as i64,
        ),
        None => s.track_total_played_secs,
    }
}

pub open spec fn has_credentials(c: ConfigView) -> bool {
    c.lastfm.api_key.len() > 0 && c.lastfm.api_secret.len() > 0
}

/// The scrobble check of a tick: a track that plays, is not scrobbled yet,
/// with scrobbling on, a known length, confirmed by Last.fm where the sanity
/// check asks for it, played long enough and a client at hand is scrobbled.
pub open spec fn scrobble_check(s: AppView, now: Timestamp) -> (AppView, Seq<EffectView>) {
    match s.current_track {
        Some(t) => if !s.scrobble_sent && s.config.general.scrobble_enabled {
            match t.duration {
                Some(d) => if (!s.config.general.scrobble_sanity_check || s.track_verified)
                    && played_secs(s, now) >= scrobble_threshold(d) && s.lastfm is Some {
                    (AppView { scrobble_sent: true, ..s }, seq![EffectView::Scrobble { client: s.lastfm->0, track: t }])
                } else {
                    (s, Seq::empty())
                },
                None => (s, Seq::empty()),
            }
        } else {
            (s, Seq::empty())
        },
        None => (s, Seq::empty()),
    }
}

/// A tick once no authorisation attempt was made: start authorising where
/// there are credentials but neither a session nor a pending authorisation,
/// rebuild the client of a saved session, then check for a scrobble.
pub open spec fn tick_rest(s: AppView, now: Timestamp) -> (AppView, Seq<EffectView>) {
    if s.config.lastfm.session_key is None && s.lastfm is None && s.auth_url is None && has_credentials(s.config) {
        let c = LastFmView { api_key: s.config.lastfm.api_key, api_secret: s.config.lastfm.api_secret, session_key: None };
        (AppView { lastfm: Some(c), ..s }, seq![EffectView::RequestToken { client: c }])
    } else {
        let s2 = if s.config.lastfm.session_key is Some && s.lastfm is None && has_credentials(s.config) {
            AppView {
                lastfm: Some(LastFmView {
                    api_key: s.config.lastfm.api_key,
                    api_secret: s.config.lastfm.api_secret,
                    session_key: s.config.lastfm.session_key,
                }),
                ..s
            }
        } else {
            s
        };
        scrobble_check(s2, now)
    }
}

/// Whether a tick at `now` may try to finish a pending authorisation: three
/// seconds after the last try, and fewer than twenty tries so far.
pub open spec fn may_attempt_auth(s: AppView, now: Timestamp) -> bool {
    &&& s.auth_token is Some
    &&& s.config.lastfm.session_key is None
    &&& match s.last_auth_attempt {
        Some(t) => whole_seconds(now, t) >= 3,
        None => true,
    }
    &&& s.auth_attempts < max_auth_attempts()
}

/// A clock tick.
pub open spec fn tick(s: AppView, now: Timestamp) -> (AppView, Seq<EffectView>) {
    if may_attempt_auth(s, now) {
        let s1 = AppView { last_auth_attempt: Some(now), auth_attempts: (s.auth_attempts + 1) as u32, ..s };
        match s.lastfm {
            Some(c) => (s1, seq![EffectView::CompleteAuthentication { client: c, token: s.auth_token->0 }]),
            None => tick_rest(s1, now),
        }
    } else {
        tick_rest(s, now)
    }
}

/// `u` with every leading copy of `prefix` removed.
pub open spec fn strip_prefixes(u: Seq<char>, prefix: Seq<char>) -> Seq<char>
    decreases u.len(),
{
    if prefix.len() > 0 && prefix.len() <= u.len() && u.subrange(0, prefix.len() as int) == prefix {
        strip_prefixes(u.subrange(prefix.len() as int, u.len() as int), prefix)
    } else {
        u
    }
}

pub open spec fn file_scheme() -> Seq<char> {
    "file://"@
}

/// The notification icon for a cover address: the local path of a `file://`
/// address, nothing for others.
pub open spec fn icon_path(art_url: Option<Seq<char>>) -> Option<Seq<char>> {
    match art_url {
        Some(u) => if file_scheme().len() <= u.len() && u.subrange(0, file_scheme().len() as int) == file_scheme() {
            Some(strip_prefixes(u, file_scheme()))
        } else {
            None
        },
        None => None,
    }
}

/// The cached cover of a track, where its cover address is in the cache.
pub open spec fn cached_cover(cache: Map<Seq<char>, Seq<u8>>, art_url: Option<Seq<char>>) -> Option<Seq<u8>> {
    match art_url {
        Some(u) => if cache.dom().contains(u) { Some(cache[u]) } else { None },
        None => None,
    }
}

/// The text by which a notified track is remembered: "artist - title".
pub open spec fn notification_key(t: TrackInfoView) -> Seq<char> {
    t.artist + " - "@ + t.title
}

/// A new track: reset the counters and the cover, notify once per track
/// where notifications are on, announce it and ask for its information.
pub open spec fn track_change(s: AppView, t: TrackInfoView, now: Timestamp) -> (AppView, Seq<EffectView>) {
    let s1 = AppView {
        current_track: Some(t),
        now_playing_sent: false,
        scrobble_sent: false,
        track_start_time: Some(now),
        track_image_bytes: cached_cover(s.image_cache, t.art_url),
        track_verified: false,
        track_total_played_secs: 0,
        last_resume_time: Some(now),
        ..s
    };
    let key = notification_key(t);
    let notify = s.config.ui.show_notifications && s.last_notified_track != Some(key);
    let s2 = if notify { AppView { last_notified_track: Some(key), ..s1 } } else { s1 };
    let e1 = if notify {
        seq![EffectView::Notify { artist: t.artist, title: t.title, album: t.album, icon: icon_path(t.art_url) }]
    } else {
        Seq::empty()
    };
    let e2 = match s.lastfm {
        Some(c) => seq![EffectView::NowPlaying { client: c, track: t }, EffectView::FetchTrackInfo { client: c, track: t }],
        None => Seq::empty(),
    };
    (s2, e1 + e2)
}

/// The first position of `x` in `list`.
pub open spec fn position_of(list: Seq<Seq<char>>, x: Seq<char>) -> Option<int>
    decreases list.len(),
{
    if list.len() == 0 {
        None
    } else if list[0] == x {
        Some(0)
    } else {
        match position_of(list.drop_first(), x) {
            Some(i) => Some(i + 1),
            None => None,
        }
    }
}

/// The ignore list after toggling `x`: its first occurrence removed, or `x`
/// appended where it is absent.
pub open spec fn toggled(list: Seq<Seq<char>>, x: Seq<char>) -> Seq<Seq<char>> {
    match position_of(list, x) {
        Some(i) => list.remove(i),
        None => list.push(x),
    }
}

pub open spec fn with_error(s: AppView, e: Seq<char>) -> AppView {
    AppView { error_message: Some(e), ..s }
}

pub open spec fn none_yet() -> Seq<EffectView> {
    Seq::empty()
}

/// The state and the work after `m` arrives at `now`.
pub open spec fn step_spec(s: AppView, m: Message, now: Timestamp) -> (AppView, Seq<EffectView>) {
    match m {
        Message::Tick => tick(s, now),
        Message::TrackUpdate(t) => (AppView { current_track: opt_track_view(t), ..s }, none_yet()),
        Message::MprisTrackChanged(t) => track_change(s, t@, now),
        Message::MprisStatusChanged(playing) => if playing {
            if s.last_resume_time is None {
                (AppView { last_resume_time: Some(now), ..s }, none_yet())
            } else {
                (s, none_yet())
            }
        } else {
            match s.last_resume_time {
                Some(_) => (
                    AppView { track_total_played_secs: played_secs(s, now), last_resume_time: None, ..s },
                    none_yet(),
                ),
                None => (s, none_yet()),
            }
        },
        Message::MprisStopped => (
            AppView {
                current_track: None,
                track_image_bytes: None,
                track_total_played_secs: 0,
                last_resume_time: None,
                now_playing_sent: false,
                scrobble_sent: false,
                ..s
            },
            none_yet(),
        ),
        Message::AuthUrl(u) => (AppView { auth_url: Some(u@), ..s }, none_yet()),
        Message::AuthComplete(r) => match r {
            Ok((token, url)) => (AppView { auth_token: Some(token@), auth_url: Some(url@), ..s }, none_yet()),
            Err(e) => (with_error(s, e@), none_yet()),
        },
        Message::SaveConfig => (s, seq![EffectView::SaveConfig { report: false }]),
        Message::OpenAuthUrl(u) => (s, seq![EffectView::OpenUrl { url: u@ }]),
        Message::CompleteAuth => if s.auth_token is Some && s.auth_url is Some && s.lastfm is Some {
            (s, seq![EffectView::CompleteAuthentication { client: s.lastfm->0, token: s.auth_token->0 }])
        } else {
            (s, none_yet())
        },
        Message::AuthSessionComplete(r) => match r {
            Ok((key, user)) => (
                AppView {
                    config: ConfigView {
                        lastfm: LastFmConfigView {
                            session_key: Some(key@),
                            username: Some(user@),
                            ..s.config.lastfm
                        },
                        ..s.config
                    },
                    lastfm: Some(LastFmView {
                        api_key: s.config.lastfm.api_key,
                        api_secret: s.config.lastfm.api_secret,
                        session_key: Some(key@),
                    }),
                    ..s
                },
                seq![EffectView::SaveConfig { report: true }],
            ),
            Err(e) => (with_error(s, "Auth failed: "@ + e@), none_yet()),
        },
        Message::SessionSaved(r) => match r {
            Ok(_) => (AppView { error_message: None, auth_token: None, auth_url: None, ..s }, none_yet()),
            Err(e) => (with_error(s, "Failed to save config: "@ + e@), none_yet()),
        },
        Message::NowPlayingSent(r) => match r {
            Ok(_) => (AppView { now_playing_sent: true, ..s }, none_yet()),
            Err(e) => (with_error(s, e@), none_yet()),
        },
        Message::ScrobbleSent(r) => match r {
            Ok(_) => (AppView { scrobble_sent: true, ..s }, none_yet()),
            Err(e) => (with_error(s, e@), none_yet()),
        },
        Message::AppError(e) => (with_error(s, e@), none_yet()),
        Message::ToggleIgnore(x) => (
            AppView {
                config: ConfigView {
                    general: GeneralConfigView {
                        ignored_players: toggled(s.config.general.ignored_players, x@),
                        ..s.config.general
                    },
                    ..s.config
                },
                ..s
            },
            seq![EffectView::SaveConfig { report: false }],
        ),
        Message::Quit => (s, seq![EffectView::Exit]),
        Message::ToggleWindow => (AppView { visible: !s.visible, ..s }, none_yet()),
        Message::TrackInfoReceived(r) => match r {
            Ok(track) => {
                let s1 = AppView { track_verified: true, ..s };
                match cover_url(track) {
                    Some(u) => if u.len() > 0 {
                        if s.image_cache.dom().contains(u) {
                            (AppView { track_image_bytes: Some(s.image_cache[u]), ..s1 }, none_yet())
                        } else {
                            (s1, seq![EffectView::FetchImage { url: u }])
                        }
                    } else {
                        (s1, none_yet())
                    },
                    None => (s1, none_yet()),
                }
            },
            Err(_) => (AppView { track_verified: false, ..s }, none_yet()),
        },
        Message::ImageBytesReceived(r) => match r {
            Ok((url, bytes)) => (
                AppView {
                    image_cache: s.image_cache.insert(url@, bytes@),
                    track_image_bytes: Some(bytes@),
                    ..s
                },
                none_yet(),
            ),
            Err(_) => (s, none_yet()),
        },
        _ => (s, none_yet()),
    }
}

fn has_prefix(s: &str, p: &str) -> (b: bool)
    ensures
        b == (p@.len() <= s@.len() && s@.subrange(0, p@.len() as int) == p@),
{
    let n = s.unicode_len();
    let m = p.unicode_len();
    if m > n {
        return false;
    }
    let mut k: usize = 0;
    while k < m
        invariant
            n == s@.len(),
            m == p@.len(),
            m <= n,
            k <= m,
            forall|i: int| 0 <= i < k ==> s@[i] == p@[i],
        decreases m - k,
    {
        if s.get_char(k) != p.get_char(k) {
            assert(s@.subrange(0, m as int)[k as int] != p@[k as int]);
            return false;
        }
        k = k + 1;
    }
    assert(s@.subrange(0, m as int) =~= p@);
    true
}

/// The local path of a `file://` cover address (every leading `file://`
/// removed), or nothing for other addresses.
pub fn cover_path(u: &String) -> (r: Option<String>)
    ensures
        opt_str_view(r) == icon_path(Some(u@)),
{
    let scheme = "file://";
    proof {
        reveal_strlit("file://");
    }
    if !has_prefix(u.as_str(), scheme) {
        return None;
    }
    let plen = scheme.unicode_len();
    let mut rest: &str = u.as_str();
    while has_prefix(rest, scheme)
        invariant
            scheme@ == file_scheme(),
            plen == file_scheme().len(),
            plen > 0,
            strip_prefixes(rest@, file_scheme()) == strip_prefixes(u@, file_scheme()),
        decreases rest@.len(),
    {
        let n = rest.unicode_len();
        rest = rest.substring_char(plen, n);
    }
    Some(String::from_str(rest))
}

proof fn lemma_position_first(list: Seq<Seq<char>>, x: Seq<char>, k: int)
    requires
        0 <= k < list.len(),
        list[k] == x,
        forall|i: int| 0 <= i < k ==> list[i] != x,
    ensures
        position_of(list, x) == Some(k),
    decreases k,
{
    if k > 0 {
        lemma_position_first(list.drop_first(), x, k - 1);
    }
}

proof fn lemma_position_none(list: Seq<Seq<char>>, x: Seq<char>)
    requires
        forall|i: int| 0 <= i < list.len() ==> list[i] != x,
    ensures
        position_of(list, x) is None,
    decreases list.len(),
{
    if list.len() > 0 {
        assert(list[0] != x);
        lemma_position_none(list.drop_first(), x);
    }
}

/// Toggles `x` in the ignore list `list`.
fn toggle_in(list: &mut Vec<String>, x: String)
    ensures
        strings_view(final(list)@) == toggled(strings_view(old(list)@), x@),
{
    let ghost v0 = strings_view(list@);
    let n = list.len();
    let mut pos: Option<usize> = None;
    let mut k: usize = 0;
    while k < n
        invariant
            n == list@.len(),
            v0 == strings_view(list@),
            k <= n,
            match pos {
                Some(p) => p < k && v0[p as int] == x@ && forall|i: int| 0 <= i < p ==> v0[i] != x@,
                None => forall|i: int| 0 <= i < k ==> v0[i] != x@,
            },
        decreases n - k,
    {
        if pos.is_none() && list[k] == x {
            pos = Some(k);
        }
        k = k + 1;
    }
    if let Some(p) = pos {
        proof {
            lemma_position_first(v0, x@, p as int);
        }
        list.remove(p);
        assert(strings_view(list@) =~= v0.remove(p as int));
    } else {
        proof {
            lemma_position_none(v0, x@);
        }
        list.push(x);
        assert(strings_view(list@) =~= v0.push(x@));
    }
}

fn scrobble_step(state: &mut App, now: Timestamp) -> (effects: Vec<Effect>)
    requires
        times_ok(old(state)@),
        well_formed(now),
    ensures
        (final(state)@, effects_view(effects@)) == scrobble_check(old(state)@, now),
        times_ok(final(state)@),
{
    let mut effects: Vec<Effect> = Vec::new();
    let ghost s0 = state@;
    assert(effects_view(effects@) =~= Seq::<EffectView>::empty());
    let track = match &state.current_track {
        Some(t) => t.clone(),
        None => {
            return effects;
        },
    };
    if state.scrobble_sent || !state.config.general.scrobble_enabled {
        return effects;
    }
    let elapsed: u64 = match state.last_resume_time {
        Some(last) => state.track_total_played_secs.wrapping_add_signed(seconds_between(now, last)),
        None => state.track_total_played_secs,
    };
    assert(elapsed == played_secs(s0, now));
    let duration = match track.duration {
        Some(d) => d,
        None => {
            return effects;
        },
    };
    let can_scrobble = if state.config.general.scrobble_sanity_check {
        state.track_verified
    } else {
        true
    };
    if !can_scrobble {
        return effects;
    }
    let half = duration / 2;
    let threshold: u64 = if half < 240 { half } else { 240 };
    if elapsed >= threshold {
        match &state.lastfm {
            Some(c) => {
                let client = share(c);
                state.scrobble_sent = true;
                effects.push(Effect::Scrobble { client, track });
                assert(effects_view(effects@) =~= seq![EffectView::Scrobble { client: s0.lastfm->0, track: s0.current_track->0 }]);
            },
            None => {},
        }
    }
    effects
}

fn tick_rest_step(state: &mut App, now: Timestamp) -> (effects: Vec<Effect>)
    requires
        times_ok(old(state)@),
        well_formed(now),
    ensures
        (final(state)@, effects_view(effects@)) == tick_rest(old(state)@, now),
        times_ok(final(state)@),
{
    let creds = state.config.has_credentials();
    if state.config.lastfm.session_key.is_none() && state.lastfm.is_none() && state.auth_url.is_none() && creds {
        let lfm = LastFm::new(state.config.lastfm.api_key.clone(), state.config.lastfm.api_secret.clone());
        let client = Arc::new(lfm);
        let handed = share(&client);
        state.lastfm = Some(client);
        let mut effects: Vec<Effect> = Vec::new();
        effects.push(Effect::RequestToken { client: handed });
        assert(effects_view(effects@) =~= seq![EffectView::RequestToken { client: handed@ }]);
        return effects;
    }
    if state.lastfm.is_none() && creds {
        match &state.config.lastfm.session_key {
            Some(sk) => {
                let lfm = LastFm::new(state.config.lastfm.api_key.clone(), state.config.lastfm.api_secret.clone());
                let lfm = lfm.with_session_key(sk.clone());
                state.lastfm = Some(Arc::new(lfm));
            },
            None => {},
        }
    }
    scrobble_step(state, now)
}

fn tick_step(state: &mut App, now: Timestamp) -> (effects: Vec<Effect>)
    requires
        times_ok(old(state)@),
        well_formed(now),
    ensures
        (final(state)@, effects_view(effects@)) == tick(old(state)@, now),
        times_ok(final(state)@),
{
    if state.auth_token.is_some() && state.config.lastfm.session_key.is_none() {
        let should_attempt = match state.last_auth_attempt {
            Some(last) => seconds_between(now, last) >= 3,
            None => true,
        };
        if should_attempt && state.auth_attempts < 20 {
            state.last_auth_attempt = Some(now);
            state.auth_attempts = state.auth_attempts + 1;
            match &state.lastfm {
                Some(c) => {
                    match &state.auth_token {
                        Some(token) => {
                            let client = share(c);
                            let mut effects: Vec<Effect> = Vec::new();
                            effects.push(Effect::CompleteAuthentication { client, token: token.clone() });
                            assert(effects_view(effects@) =~= seq![EffectView::CompleteAuthentication { client: client@, token: token@ }]);
                            return effects;
                        },
                        None => {},
                    }
                },
                None => {},
            }
        }
    }
    tick_rest_step(state, now)
}

/// Handles a new track reported by the player.
fn track_change_step(state: &mut App, track: TrackInfo, now: Timestamp) -> (effects: Vec<Effect>)
    requires
        times_ok(old(state)@),
        well_formed(now),
    ensures
        (final(state)@, effects_view(effects@)) == track_change(old(state)@, track@, now),
        times_ok(final(state)@),
{
    let ghost s0 = state@;
    state.current_track = Some(track.clone());
    state.now_playing_sent = false;
    state.scrobble_sent = false;
    state.track_start_time = Some(now);
    state.track_image_bytes = None;
    state.track_verified = false;
    state.track_total_played_secs = 0;
    state.last_resume_time = Some(now);
    match &track.art_url {
        Some(u) => {
            match state.image_cache.get(u) {
                Some(bytes) => {
                    state.track_image_bytes = Some(bytes);
                },
                None => {},
            }
        },
        None => {},
    }
    let mut effects: Vec<Effect> = Vec::new();
    let ghost e1: Seq<EffectView>;
    if state.config.ui.show_notifications {
        let mut key = track.artist.clone();
        key.append(" - ");
        key.append(track.title.as_str());
        let fresh = match &state.last_notified_track {
            Some(last) => !(*last == key),
            None => true,
        };
        if fresh {
            state.last_notified_track = Some(key);
            let icon = match &track.art_url {
                Some(u) => cover_path(u),
                None => None,
            };
            effects.push(Effect::Notify {
                artist: track.artist.clone(),
                title: track.title.clone(),
                album: clone_opt_string(&track.album),
                icon,
            });
        }
    }
    proof {
        e1 = effects_view(effects@);
    }
    match &state.lastfm {
        Some(c) => {
            effects.push(Effect::NowPlaying { client: share(c), track: track.clone() });
            effects.push(Effect::FetchTrackInfo { client: share(c), track: track.clone() });
            assert(effects_view(effects@) =~= e1 + seq![
                EffectView::NowPlaying { client: s0.lastfm->0, track: track@ },
                EffectView::FetchTrackInfo { client: s0.lastfm->0, track: track@ },
            ]);
        },
        None => {
            assert(effects_view(effects@) =~= e1 + Seq::<EffectView>::empty());
        },
    }
    effects
}

fn one(e: Effect) -> (v: Vec<Effect>)
    ensures
        effects_view(v@) == seq![e@],
{
    let mut v: Vec<Effect> = Vec::new();
    v.push(e);
    assert(effects_view(v@) =~= seq![e@]);
    v
}

fn nothing() -> (v: Vec<Effect>)
    ensures
        effects_view(v@) == none_yet(),
{
    let v: Vec<Effect> = Vec::new();
    assert(effects_view(v@) =~= none_yet());
    v
}

fn prefixed(prefix: &str, e: String) -> (r: String)
    ensures
        r@ == prefix@ + e@,
{
    let start = String::from_str(prefix);
    start.concat(e.as_str())
}

/// Applies `message`, arriving at `now`, to `state` and returns the work it
/// asks for.
pub fn step(state: &mut App, message: Message, now: Timestamp) -> (effects: Vec<Effect>)
    requires
        times_ok(old(state)@),
        well_formed(now),
    ensures
        (final(state)@, effects_view(effects@)) == step_spec(old(state)@, message, now),
        times_ok(final(state)@),
{
    match message {
        Message::Tick => tick_step(state, now),
        Message::TrackUpdate(t) => {
            state.current_track = t;
            nothing()
        },
        Message::MprisTrackChanged(t) => track_change_step(state, t, now),
        Message::MprisStatusChanged(playing) => {
            if playing {
                if state.last_resume_time.is_none() {
                    state.last_resume_time = Some(now);
                }
            } else {
                match state.last_resume_time {
                    Some(last) => {
                        let secs = seconds_between(now, last);
                        state.track_total_played_secs = state.track_total_played_secs.wrapping_add_signed(secs);
                        state.last_resume_time = None;
                    },
                    None => {},
                }
            }
            nothing()
        },
        Message::MprisStopped => {
            state.current_track = None;
            state.track_image_bytes = None;
            state.track_total_played_secs = 0;
            state.last_resume_time = None;
            state.now_playing_sent = false;
            state.scrobble_sent = false;
            nothing()
        },
        Message::AuthUrl(u) => {
            state.auth_url = Some(u);
            nothing()
        },
        Message::AuthComplete(r) => {
            match r {
                Ok((token, url)) => {
                    state.auth_token = Some(token);
                    state.auth_url = Some(url);
                },
                Err(e) => {
                    state.error_message = Some(e);
                },
            }
            nothing()
        },
        Message::SaveConfig => one(Effect::SaveConfig { report: false }),
        Message::OpenAuthUrl(u) => one(Effect::OpenUrl { url: u }),
        Message::CompleteAuth => {
            if state.auth_url.is_some() {
                match &state.auth_token {
                    Some(token) => {
                        match &state.lastfm {
                            Some(c) => {
                                return one(Effect::CompleteAuthentication { client: share(c), token: token.clone() });
                            },
                            None => {},
                        }
                    },
                    None => {},
                }
            }
            nothing()
        },
        Message::AuthSessionComplete(r) => {
            match r {
                Ok((key, user)) => {
                    state.config.lastfm.session_key = Some(key.clone());
                    state.config.lastfm.username = Some(user);
                    let lfm = LastFm::new(state.config.lastfm.api_key.clone(), state.config.lastfm.api_secret.clone());
                    let lfm = lfm.with_session_key(key);
                    state.lastfm = Some(Arc::new(lfm));
                    one(Effect::SaveConfig { report: true })
                },
                Err(e) => {
                    state.error_message = Some(prefixed("Auth failed: ", e));
                    nothing()
                },
            }
        },
        Message::SessionSaved(r) => {
            match r {
                Ok(_) => {
                    state.error_message = None;
                    state.auth_token = None;
                    state.auth_url = None;
                },
                Err(e) => {
                    state.error_message = Some(prefixed("Failed to save config: ", e));
                },
            }
            nothing()
        },
        Message::NowPlayingSent(r) => {
            match r {
                Ok(_) => state.now_playing_sent = true,
                Err(e) => state.error_message = Some(e),
            }
            nothing()
        },
        Message::ScrobbleSent(r) => {
            match r {
                Ok(_) => state.scrobble_sent = true,
                Err(e) => state.error_message = Some(e),
            }
            nothing()
        },
        Message::AppError(e) => {
            state.error_message = Some(e);
            nothing()
        },
        Message::ToggleIgnore(x) => {
            toggle_in(&mut state.config.general.ignored_players, x);
            one(Effect::SaveConfig { report: false })
        },
        Message::Quit => one(Effect::Exit),
        Message::ToggleWindow => {
            state.visible = !state.visible;
            nothing()
        },
        Message::TrackInfoReceived(r) => {
            match r {
                Ok(track) => {
                    state.track_verified = true;
                    match track.cover_url() {
                        Some(url) => {
                            if url.as_str().unicode_len() > 0 {
                                match state.image_cache.get(&url) {
                                    Some(bytes) => {
                                        state.track_image_bytes = Some(bytes);
                                    },
                                    None => {
                                        return one(Effect::FetchImage { url });
                                    },
                                }
                            }
                        },
                        None => {},
                    }
                },
                Err(_) => {
                    state.track_verified = false;
                },
            }
            nothing()
        },
        Message::ImageBytesReceived(r) => {
            match r {
                Ok((url, bytes)) => {
                    state.image_cache.insert(url, bytes.clone());
                    state.track_image_bytes = Some(bytes);
                },
                Err(_) => {},
            }
            nothing()
        },
        _ => nothing(),
    }
}

/// Applies `message` to `state` at the current time and returns the work it
/// asks for.
pub fn update(state: &mut App, message: Message) -> (effects: Vec<Effect>)
    requires
        times_ok(old(state)@),
    ensures
        exists|t: Timestamp| well_formed(t)
            && (final(state)@, effects_view(effects@)) == #[trigger] step_spec(old(state)@, message, t),
        times_ok(final(state)@),
{
    let t = now();
    step(state, message, t)
}

} // verus!
