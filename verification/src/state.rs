//! The state of the running scrobbler and its abstract view.
use vstd::prelude::*;
use vstd::string::*;
use std::sync::Arc;
use crate::clock::{Timestamp, well_formed};
use crate::config::{Config, ConfigView, opt_str_view};
use crate::lastfm::{LastFm, LastFmView};
use crate::players::{TrackInfo, TrackInfoView};

verus! {

/// Cover images already fetched, by address.
pub struct ImageCache {
    entries: Vec<(String, Vec<u8>)>,
}

pub open spec fn entry_view(p: (String, Vec<u8>)) -> (Seq<char>, Seq<u8>) {
    (p.0@, p.1@)
}

/// The map that a list of (address, image) entries describes; a later entry
/// wins over an earlier one with the same address.
pub open spec fn map_of(e: Seq<(Seq<char>, Seq<u8>)>) -> Map<Seq<char>, Seq<u8>>
    decreases e.len(),
{
    if e.len() == 0 {
        Map::empty()
    } else {
        map_of(e.drop_last()).insert(e.last().0, e.last().1)
    }
}

pub open spec fn keys_distinct(e: Seq<(Seq<char>, Seq<u8>)>) -> bool {
    forall|i: int, j: int| 0 <= i < e.len() && 0 <= j < e.len() && i != j ==> (#[trigger] e[i]).0 != (#[trigger] e[j]).0
}

proof fn lemma_map_of_dom(e: Seq<(Seq<char>, Seq<u8>)>, k: Seq<char>)
    ensures
        map_of(e).dom().contains(k) <==> exists|i: int| 0 <= i < e.len() && (#[trigger] e[i]).0 == k,
    decreases e.len(),
{
    if e.len() > 0 {
        lemma_map_of_dom(e.drop_last(), k);
        if map_of(e).dom().contains(k) && k != e.last().0 {
            let i = choose|i: int| 0 <= i < e.drop_last().len() && (#[trigger] e.drop_last()[i]).0 == k;
            assert(e[i].0 == k);
        }
        if exists|i: int| 0 <= i < e.len() && (#[trigger] e[i]).0 == k {
            let i = choose|i: int| 0 <= i < e.len() && (#[trigger] e[i]).0 == k;
            if i < e.len() - 1 {
                assert(e.drop_last()[i].0 == k);
            }
        }
    }
}

proof fn lemma_map_of_value(e: Seq<(Seq<char>, Seq<u8>)>, i: int)
    requires
        keys_distinct(e),
        0 <= i < e.len(),
    ensures
        map_of(e).dom().contains(e[i].0),
        map_of(e)[e[i].0] == e[i].1,
    decreases e.len(),
{
    lemma_map_of_dom(e, e[i].0);
    if i < e.len() - 1 {
        let d = e.drop_last();
        assert(keys_distinct(d)) by {
            assert forall|a: int, b: int| 0 <= a < d.len() && 0 <= b < d.len() && a != b implies (#[trigger] d[a]).0 != (#[trigger] d[b]).0 by {
                assert(d[a] == e[a] && d[b] == e[b]);
            }
        }
        assert(d[i] == e[i]);
        lemma_map_of_value(d, i);
        assert(e[i].0 != e[e.len() - 1].0);
    }
}

impl View for ImageCache {
    type V = Map<Seq<char>, Seq<u8>>;

    closed spec fn view(&self) -> Map<Seq<char>, Seq<u8>> {
        map_of(self.entries@.map_values(|p: (String, Vec<u8>)| entry_view(p)))
    }
}

impl ImageCache {
    #[verifier::type_invariant]
    closed spec fn addresses_distinct(self) -> bool {
        keys_distinct(self.entries@.map_values(|p: (String, Vec<u8>)| entry_view(p)))
    }

    /// An empty cache.
    pub fn new() -> (c: ImageCache)
        ensures
            c@ == Map::<Seq<char>, Seq<u8>>::empty(),
    {
        let c = ImageCache { entries: Vec::new() };
        assert(c.entries@.map_values(|p: (String, Vec<u8>)| entry_view(p)) =~= Seq::empty());
        c
    }

    fn position(&self, url: &String) -> (r: Option<usize>)
        ensures
            match r {
                Some(i) => i < self.entries@.len() && self.entries@[i as int].0@ == url@,
                None => forall|i: int| 0 <= i < self.entries@.len() ==> (#[trigger] self.entries@[i]).0@ != url@,
            },
    {
        let mut k: usize = 0;
        while k < self.entries.len()
            invariant
                k <= self.entries@.len(),
                forall|i: int| 0 <= i < k ==> (#[trigger] self.entries@[i]).0@ != url@,
            decreases self.entries@.len() - k,
        {
            if self.entries[k].0 == *url {
                return Some(k);
            }
            k = k + 1;
        }
        None
    }

    /// The image kept for `url`, if any.
    pub fn get(&self, url: &String) -> (r: Option<Vec<u8>>)
        ensures
            match r {
                Some(b) => self@.dom().contains(url@) && b@ == self@[url@],
                None => !self@.dom().contains(url@),
            },
    {
        proof {
            use_type_invariant(self);
        }
        let ghost e = self.entries@.map_values(|p: (String, Vec<u8>)| entry_view(p));
        match self.position(url) {
            Some(i) => {
                let b = self.entries[i].1.clone();
                proof {
                    assert(e[i as int] == entry_view(self.entries@[i as int]));
                    lemma_map_of_value(e, i as int);
                    assert(b@ =~= self.entries@[i as int].1@);
                }
                Some(b)
            },
            None => {
                proof {
                    lemma_map_of_dom(e, url@);
                    if exists|i: int| 0 <= i < e.len() && (#[trigger] e[i]).0 == url@ {
                        let i = choose|i: int| 0 <= i < e.len() && (#[trigger] e[i]).0 == url@;
                        assert(self.entries@[i].0@ != url@);
                    }
                }
                None
            },
        }
    }

    /// Keeps `bytes` as the image of `url`, replacing what was kept for it.
    pub fn insert(&mut self, url: String, bytes: Vec<u8>)
        ensures
            final(self)@ == old(self)@.insert(url@, bytes@),
    {
        proof {
            use_type_invariant(&*self);
        }
        let ghost old_entries = self.entries@;
        let ghost e0 = self.entries@.map_values(|p: (String, Vec<u8>)| entry_view(p));
        let ghost k = url@;
        let ghost v = bytes@;
        match self.position(&url) {
            Some(i) => {
                let mut entries: Vec<(String, Vec<u8>)> = Vec::new();
                std::mem::swap(&mut entries, &mut self.entries);
                entries.set(i, (url, bytes));
                let ghost e1 = entries@.map_values(|p: (String, Vec<u8>)| entry_view(p));
                proof {
                    assert(e1 =~= e0.update(i as int, (k, v)));
                    assert(keys_distinct(e1)) by {
                        assert forall|a: int, b: int| 0 <= a < e1.len() && 0 <= b < e1.len() && a != b implies (#[trigger] e1[a]).0 != (#[trigger] e1[b]).0 by {
                            assert(e0[i as int].0 == k);
                        }
                    }
                    assert forall|q: Seq<char>| #![auto] map_of(e1).dom().contains(q) == map_of(e0).insert(k, v).dom().contains(q) by {
                        lemma_map_of_dom(e1, q);
                        lemma_map_of_dom(e0, q);
                        if q == k {
                            assert(e1[i as int].0 == k);
                        } else {
                            if exists|j: int| 0 <= j < e0.len() && (#[trigger] e0[j]).0 == q {
                                let j = choose|j: int| 0 <= j < e0.len() && (#[trigger] e0[j]).0 == q;
                                assert(j != i);
                                assert(e1[j].0 == q);
                            }
                            if exists|j: int| 0 <= j < e1.len() && (#[trigger] e1[j]).0 == q {
                                let j = choose|j: int| 0 <= j < e1.len() && (#[trigger] e1[j]).0 == q;
                                assert(j != i);
                                assert(e0[j].0 == q);
                            }
                        }
                    }
                    assert forall|q: Seq<char>| #![auto] map_of(e1).dom().contains(q) implies map_of(e1)[q] == map_of(e0).insert(k, v)[q] by {
                        lemma_map_of_dom(e1, q);
                        let j = choose|j: int| 0 <= j < e1.len() && (#[trigger] e1[j]).0 == q;
                        lemma_map_of_value(e1, j);
                        if j != i {
                            assert(e0[j] == e1[j]);
                            assert(e0[j].0 != e0[i as int].0);
                            lemma_map_of_value(e0, j);
                        } else {
                            assert(e1[j] == (k, v));
                        }
                    }
                    assert(map_of(e1) =~= map_of(e0).insert(k, v));
                }
                self.entries = entries;
            },
            None => {
                let mut entries: Vec<(String, Vec<u8>)> = Vec::new();
                std::mem::swap(&mut entries, &mut self.entries);
                entries.push((url, bytes));
                let ghost e1 = entries@.map_values(|p: (String, Vec<u8>)| entry_view(p));
                proof {
                    assert(e1 =~= e0.push((k, v)));
                    assert(e1.drop_last() =~= e0);
                    assert(keys_distinct(e1)) by {
                        assert forall|a: int, b: int| 0 <= a < e1.len() && 0 <= b < e1.len() && a != b implies (#[trigger] e1[a]).0 != (#[trigger] e1[b]).0 by {
                            if a < e0.len() {
                                assert(e0[a] == entry_view(old_entries[a]));
                            }
                            if b < e0.len() {
                                assert(e0[b] == entry_view(old_entries[b]));
                            }
                        }
                    }
                }
                self.entries = entries;
            },
        }
    }
}

/// Everything the scrobbler keeps between two messages.
pub struct App {
    pub config: Config,
    /// The configuration file given on the command line, if any.
    pub config_path: Option<String>,
    pub current_track: Option<TrackInfo>,
    pub lastfm: Option<Arc<LastFm>>,
    /// The token of an authorisation that the user has not finished yet.
    pub auth_token: Option<String>,
    pub auth_url: Option<String>,
    pub error_message: Option<String>,
    pub now_playing_sent: bool,
    pub scrobble_sent: bool,
    pub track_start_time: Option<Timestamp>,
    pub last_notified_track: Option<String>,
    pub auth_attempts: u32,
    pub last_auth_attempt: Option<Timestamp>,
    pub track_image_bytes: Option<Vec<u8>>,
    pub image_cache: ImageCache,
    pub all_players: Vec<String>,
    pub track_verified: bool,
    /// Seconds the current track has played before the last resume.
    pub track_total_played_secs: u64,
    pub last_resume_time: Option<Timestamp>,
    pub visible: bool,
}

pub ghost struct AppView {
    pub config: ConfigView,
    pub config_path: Option<Seq<char>>,
    pub current_track: Option<TrackInfoView>,
    pub lastfm: Option<LastFmView>,
    pub auth_token: Option<Seq<char>>,
    pub auth_url: Option<Seq<char>>,
    pub error_message: Option<Seq<char>>,
    pub now_playing_sent: bool,
    pub scrobble_sent: bool,
    pub track_start_time: Option<Timestamp>,
    pub last_notified_track: Option<Seq<char>>,
    pub auth_attempts: u32,
    pub last_auth_attempt: Option<Timestamp>,
    pub track_image_bytes: Option<Seq<u8>>,
    pub image_cache: Map<Seq<char>, Seq<u8>>,
    pub all_players: Seq<Seq<char>>,
    pub track_verified: bool,
    pub track_total_played_secs: u64,
    pub last_resume_time: Option<Timestamp>,
    pub visible: bool,
}

pub open spec fn opt_track_view(t: Option<TrackInfo>) -> Option<TrackInfoView> {
    match t {
        Some(t) => Some(t@),
        None => None,
    }
}

pub open spec fn opt_client_view(c: Option<Arc<LastFm>>) -> Option<LastFmView> {
    match c {
        Some(c) => Some(c@),
        None => None,
    }
}

pub open spec fn opt_bytes_view(b: Option<Vec<u8>>) -> Option<Seq<u8>> {
    match b {
        Some(b) => Some(b@),
        None => None,
    }
}

pub open spec fn opt_time_ok(t: Option<Timestamp>) -> bool {
    match t {
        Some(t) => well_formed(t),
        None => true,
    }
}

impl View for App {
    type V = AppView;

    open spec fn view(&self) -> AppView {
        AppView {
            config: self.config@,
            config_path: opt_str_view(self.config_path),
            current_track: opt_track_view(self.current_track),
            lastfm: opt_client_view(self.lastfm),
            auth_token: opt_str_view(self.auth_token),
            auth_url: opt_str_view(self.auth_url),
            error_message: opt_str_view(self.error_message),
            now_playing_sent: self.now_playing_sent,
            scrobble_sent: self.scrobble_sent,
            track_start_time: self.track_start_time,
            last_notified_track: opt_str_view(self.last_notified_track),
            auth_attempts: self.auth_attempts,
            last_auth_attempt: self.last_auth_attempt,
            track_image_bytes: opt_bytes_view(self.track_image_bytes),
            image_cache: self.image_cache@,
            all_players: self.all_players@.map_values(|s: String| s@),
            track_verified: self.track_verified,
            track_total_played_secs: self.track_total_played_secs,
            last_resume_time: self.last_resume_time,
            visible: self.visible,
        }
    }
}

/// The instants the state holds all come from the clock.
pub open spec fn times_ok(s: AppView) -> bool {
    &&& opt_time_ok(s.track_start_time)
    &&& opt_time_ok(s.last_auth_attempt)
    &&& opt_time_ok(s.last_resume_time)
}

/// The client a configuration yields at start: one holding the saved session
/// where there is a session and both credentials are filled in, else none.
pub open spec fn initial_client(c: ConfigView) -> Option<LastFmView> {
    match c.lastfm.session_key {
        Some(sk) => if c.lastfm.api_key.len() > 0 && c.lastfm.api_secret.len() > 0 {
            Some(LastFmView { api_key: c.lastfm.api_key, api_secret: c.lastfm.api_secret, session_key: Some(sk) })
        } else {
            None
        },
        None => None,
    }
}

/// The state at start for a loaded configuration.
pub open spec fn initial_state(c: ConfigView, path: Option<Seq<char>>) -> AppView {
    AppView {
        config: c,
        config_path: path,
        current_track: None,
        lastfm: initial_client(c),
        auth_token: None,
        auth_url: None,
        error_message: None,
        now_playing_sent: false,
        scrobble_sent: false,
        track_start_time: None,
        last_notified_track: None,
        auth_attempts: 0,
        last_auth_attempt: None,
        track_image_bytes: None,
        image_cache: Map::empty(),
        all_players: Seq::empty(),
        track_verified: false,
        track_total_played_secs: 0,
        last_resume_time: None,
        visible: true,
    }
}

impl App {
    /// The state at start, for the configuration that was loaded and the file
    /// it came from (as given on the command line).
    pub fn new(config: Config, config_path: Option<String>) -> (app: App)
        ensures
            app@ == initial_state(config@, opt_str_view(config_path)),
            times_ok(app@),
    {
        let lastfm = match &config.lastfm.session_key {
            Some(sk) => {
                if config.has_credentials() {
                    let lfm = LastFm::new(config.lastfm.api_key.clone(), config.lastfm.api_secret.clone());
                    let lfm = lfm.with_session_key(sk.clone());
                    Some(Arc::new(lfm))
                } else {
                    None
                }
            },
            None => None,
        };
        let players: Vec<String> = Vec::new();
        let app = App {
            config,
            config_path,
            current_track: None,
            lastfm,
            auth_token: None,
            auth_url: None,
            error_message: None,
            now_playing_sent: false,
            scrobble_sent: false,
            track_start_time: None,
            last_notified_track: None,
            auth_attempts: 0,
            last_auth_attempt: None,
            track_image_bytes: None,
            image_cache: ImageCache::new(),
            all_players: players,
            track_verified: false,
            track_total_played_secs: 0,
            last_resume_time: None,
            visible: true,
        };
        assert(app.all_players@.map_values(|s: String| s@) =~= Seq::<Seq<char>>::empty());
        app
    }
}

} // verus!
