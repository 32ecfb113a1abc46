//! What the media players report, and which player the scrobbler follows.
use vstd::prelude::*;
use vstd::string::*;
use crate::config::{opt_str_view, strings_view};
use crate::glob::{glob_match, glob_matches};

verus! {

broadcast use vstd::string::group_string_axioms;

/// The track metadata a player publishes (the MPRIS fields that are read).
#[derive(Debug, Clone)]
pub struct Metadata {
    pub artists: Option<Vec<String>>,
    pub title: Option<String>,
    pub album_name: Option<String>,
    pub length_in_microseconds: Option<u64>,
    pub art_url: Option<String>,
}

/// The track that is playing, as the scrobbler sees it.
#[derive(Debug)]
pub struct TrackInfo {
    pub artist: String,
    pub title: String,
    pub album: Option<String>,
    /// Length in whole seconds.
    pub duration: Option<u64>,
    pub art_url: Option<String>,
}

pub ghost struct TrackInfoView {
    pub artist: Seq<char>,
    pub title: Seq<char>,
    pub album: Option<Seq<char>>,
    pub duration: Option<u64>,
    pub art_url: Option<Seq<char>>,
}

impl View for TrackInfo {
    type V = TrackInfoView;

    open spec fn view(&self) -> TrackInfoView {
        TrackInfoView {
            artist: self.artist@,
            title: self.title@,
            album: opt_str_view(self.album),
            duration: self.duration,
            art_url: opt_str_view(self.art_url),
        }
    }
}

/// Playback state of a player.
#[derive(Debug, Clone, Copy, PartialEq, Eq, Structural)]
pub enum PlaybackStatus {
    Playing,
    Paused,
    Stopped,
}

/// A player found on the bus: its name (the bus name without the MPRIS
/// prefix, such as `firefox.instance_1_1168`), its playback state and whether
/// it publishes any metadata.
#[derive(Debug, Clone)]
pub struct PlayerCandidate {
    pub name: String,
    pub status: PlaybackStatus,
    pub has_metadata: bool,
}

pub open spec fn unknown_artist() -> Seq<char> {
    "Unknown Artist"@
}

pub open spec fn unknown_title() -> Seq<char> {
    "Unknown Title"@
}

/// The artist shown for `artists`: the first one listed, else "Unknown Artist".
pub open spec fn artist_of(artists: Option<Seq<String>>) -> Seq<char> {
    match artists {
        Some(a) => if a.len() > 0 { a[0]@ } else { unknown_artist() },
        None => unknown_artist(),
    }
}

/// The track a player's metadata describes.
pub open spec fn track_of(m: Metadata) -> TrackInfoView {
    TrackInfoView {
        artist: artist_of(match m.artists { Some(a) => Some(a@), None => None }),
        title: match m.title { Some(t) => t@, None => unknown_title() },
        album: opt_str_view(m.album_name),
        duration: match m.length_in_microseconds { Some(us) => Some((us / 1_000_000) as u64), None => None },
        art_url: opt_str_view(m.art_url),
    }
}

pub fn clone_opt_string(o: &Option<String>) -> (r: Option<String>)
    ensures
        opt_str_view(r) == opt_str_view(*o),
{
    match o {
        Some(s) => Some(s.clone()),
        None => None,
    }
}

impl Clone for TrackInfo {
    fn clone(&self) -> (r: Self)
        ensures
            r@ == self@,
    {
        TrackInfo {
            artist: self.artist.clone(),
            title: self.title.clone(),
            album: clone_opt_string(&self.album),
            duration: self.duration,
            art_url: clone_opt_string(&self.art_url),
        }
    }
}

impl TrackInfo {
    /// The track described by `metadata`. Missing artist and title become
    /// "Unknown Artist" and "Unknown Title"; the length is cut to whole seconds.
    pub fn from_metadata(metadata: &Metadata) -> (r: Option<TrackInfo>)
        ensures
            r is Some,
            r.unwrap()@ == track_of(*metadata),
    {
        let artist = match &metadata.artists {
            Some(a) => {
                if a.len() > 0 {
                    a[0].clone()
                } else {
                    "Unknown Artist".to_string()
                }
            },
            None => "Unknown Artist".to_string(),
        };
        let title = match &metadata.title {
            Some(t) => t.clone(),
            None => "Unknown Title".to_string(),
        };
        let album = clone_opt_string(&metadata.album_name);
        let duration = match metadata.length_in_microseconds {
            Some(us) => Some(us / 1_000_000),
            None => None,
        };
        let art_url = clone_opt_string(&metadata.art_url);
        Some(TrackInfo { artist, title, album, duration, art_url })
    }
}

/// The track a player shows, where its metadata could be read.
pub fn get_current_track(metadata: Option<Metadata>) -> (r: Option<TrackInfo>)
    ensures
        match metadata {
            Some(m) => r is Some && r.unwrap()@ == track_of(m),
            None => r is None,
        },
{
    match metadata {
        Some(m) => TrackInfo::from_metadata(&m),
        None => None,
    }
}

/// Whether a player plays; a state that could not be read counts as not playing.
pub fn is_playing(status: Option<PlaybackStatus>) -> (b: bool)
    ensures
        b == (status == Some(PlaybackStatus::Playing)),
{
    match status {
        Some(PlaybackStatus::Playing) => true,
        _ => false,
    }
}

/// Whether `name` matches one of the glob patterns in `patterns`.
pub open spec fn ignored_by(patterns: Seq<Seq<char>>, name: Seq<char>) -> bool {
    exists|k: int| 0 <= k < patterns.len() && glob_match(#[trigger] patterns[k], name)
}

/// Whether the player called `name` is on the ignore list.
pub fn is_ignored(name: &String, patterns: &Vec<String>) -> (b: bool)
    ensures
        b == ignored_by(strings_view(patterns@), name@),
{
    let ghost pv = strings_view(patterns@);
    let mut k: usize = 0;
    while k < patterns.len()
        invariant
            pv == strings_view(patterns@),
            k <= patterns.len(),
            forall|i: int| 0 <= i < k ==> !glob_match(#[trigger] pv[i], name@),
        decreases patterns.len() - k,
    {
        if glob_matches(patterns[k].as_str(), name.as_str()) {
            assert(glob_match(pv[k as int], name@));
            return true;
        }
        k = k + 1;
    }
    false
}

/// How strongly a player asks to be followed: playing first, then paused,
/// then one that shows a track, then any other.
pub open spec fn rank(status: PlaybackStatus, has_metadata: bool) -> int {
    match status {
        PlaybackStatus::Playing => 0,
        PlaybackStatus::Paused => 1,
        _ => if has_metadata { 2 } else { 3 },
    }
}

pub open spec fn cand_rank(c: PlayerCandidate) -> int {
    rank(c.status, c.has_metadata)
}

/// Index `i` is the player to follow among those that `eligible` admits:
/// the first of the best rank.
pub open spec fn is_choice(c: Seq<PlayerCandidate>, eligible: spec_fn(int) -> bool, i: int) -> bool {
    &&& 0 <= i < c.len()
    &&& eligible(i)
    &&& forall|k: int| 0 <= k < c.len() && eligible(k) ==> cand_rank(c[i]) <= cand_rank(#[trigger] c[k])
    &&& forall|k: int| 0 <= k < i && eligible(k) ==> cand_rank(c[i]) < cand_rank(#[trigger] c[k])
}

/// `r` is the choice among the admitted players, and there is none when no
/// player is admitted.
pub open spec fn chosen(c: Seq<PlayerCandidate>, eligible: spec_fn(int) -> bool, r: Option<usize>) -> bool {
    match r {
        Some(i) => is_choice(c, eligible, i as int),
        None => forall|k: int| 0 <= k < c.len() ==> !#[trigger] eligible(k),
    }
}

proof fn lemma_chosen_congruent(
    c: Seq<PlayerCandidate>,
    e1: spec_fn(int) -> bool,
    e2: spec_fn(int) -> bool,
    r: Option<usize>,
)
    requires
        forall|i: int| 0 <= i < c.len() ==> #[trigger] e1(i) == e2(i),
        chosen(c, e1, r),
    ensures
        chosen(c, e2, r),
{
    match r {
        Some(i) => {
            assert forall|k: int| 0 <= k < c.len() && e2(k) implies cand_rank(c[i as int]) <= cand_rank(#[trigger] c[k]) by {
                assert(e1(k));
            }
            assert forall|k: int| 0 <= k < i && e2(k) implies cand_rank(c[i as int]) < cand_rank(#[trigger] c[k]) by {
                assert(e1(k));
            }
        },
        None => {
            assert forall|k: int| 0 <= k < c.len() implies !#[trigger] e2(k) by {
                assert(!e1(k));
            }
        },
    }
}

fn choose_among(players: &Vec<PlayerCandidate>, skip: &Vec<bool>) -> (r: Option<usize>)
    requires
        skip.len() == players.len(),
    ensures
        chosen(players@, |i: int| !skip@[i], r),
{
    let ghost elig = |i: int| !skip@[i];
    let mut best: Option<usize> = None;
    let mut best_rank: u8 = 4;
    let mut k: usize = 0;
    while k < players.len()
        invariant
            skip.len() == players.len(),
            elig == (|i: int| !skip@[i]),
            k <= players.len(),
            best_rank <= 4,
            match best {
                None => best_rank == 4 && forall|i: int| 0 <= i < k ==> !#[trigger] elig(i),
                Some(b) => b < k && elig(b as int) && best_rank == cand_rank(players@[b as int])
                    && (forall|i: int| 0 <= i < k && elig(i) ==> best_rank <= cand_rank(#[trigger] players@[i]))
                    && (forall|i: int| 0 <= i < b && elig(i) ==> best_rank < cand_rank(#[trigger] players@[i])),
            },
        decreases players.len() - k,
    {
        if !skip[k] {
            let p = &players[k];
            let r: u8 = match p.status {
                PlaybackStatus::Playing => 0,
                PlaybackStatus::Paused => 1,
                _ => if p.has_metadata { 2 } else { 3 },
            };
            if r < best_rank {
                best = Some(k);
                best_rank = r;
            }
        }
        k = k + 1;
    }
    best
}

/// The player to follow among `players`, passing over those that match a
/// pattern of `ignored`: one that plays, else one that is paused, else one that
/// shows a track, else any; the first such in the list.
pub fn find_player_with_ignore(players: &Vec<PlayerCandidate>, ignored: &Vec<String>) -> (r: Option<usize>)
    ensures
        chosen(players@, |i: int| !ignored_by(strings_view(ignored@), players@[i].name@), r),
{
    let mut skip: Vec<bool> = Vec::new();
    let mut k: usize = 0;
    while k < players.len()
        invariant
            k <= players.len(),
            skip@.len() == k,
            forall|i: int| 0 <= i < k ==> skip@[i] == ignored_by(strings_view(ignored@), #[trigger] players@[i].name@),
        decreases players.len() - k,
    {
        let b = is_ignored(&players[k].name, ignored);
        skip.push(b);
        k = k + 1;
    }
    let r = choose_among(players, &skip);
    proof {
        let e1 = |i: int| !skip@[i];
        let e2 = |i: int| !ignored_by(strings_view(ignored@), players@[i].name@);
        assert forall|i: int| 0 <= i < players@.len() implies #[trigger] e1(i) == e2(i) by {}
        lemma_chosen_congruent(players@, e1, e2, r);
    }
    r
}

/// Admits every player.
pub open spec fn every_player() -> spec_fn(int) -> bool {
    |k: int| true
}

/// A player whose name matches an ignore pattern is never followed, and some
/// player is followed whenever one is not ignored.
pub proof fn law_ignored_never_chosen(c: Seq<PlayerCandidate>, ignored: Seq<Seq<char>>, r: Option<usize>)
    requires
        chosen(c, |i: int| !ignored_by(ignored, c[i].name@), r),
    ensures
        r matches Some(i) ==> !ignored_by(ignored, c[i as int].name@),
        (exists|k: int| 0 <= k < c.len() && !ignored_by(ignored, #[trigger] c[k].name@)) ==> r is Some,
{
    let e = |i: int| !ignored_by(ignored, c[i].name@);
    if r is None {
        assert forall|k: int| 0 <= k < c.len() implies ignored_by(ignored, #[trigger] c[k].name@) by {
            assert(!e(k));
        }
    }
}

/// Where an admitted player plays, the followed player plays too.
pub proof fn law_playing_player_preferred(c: Seq<PlayerCandidate>, eligible: spec_fn(int) -> bool, r: Option<usize>, k: int)
    requires
        chosen(c, eligible, r),
        0 <= k < c.len(),
        eligible(k),
        c[k].status == PlaybackStatus::Playing,
    ensures
        r is Some,
        c[r->0 as int].status == PlaybackStatus::Playing,
{
    assert(cand_rank(c[k]) == 0);
}

pub open spec fn no_player_text() -> Seq<char> {
    "No player found: No player found"@
}

/// The player to follow when the bus could be listed (`Ok`, all players on
/// it), or the failure: the bus error prefixed with "D-Bus error: ", or
/// "No player found: No player found" when there is no player.
pub fn find_player(players: Result<Vec<PlayerCandidate>, String>) -> (r: Result<usize, String>)
    ensures
        players is Err ==> r is Err && r->Err_0@ == "D-Bus error: "@ + players->Err_0@,
        players is Ok && players->Ok_0.len() == 0 ==> r is Err && r->Err_0@ == no_player_text(),
        players is Ok && players->Ok_0.len() > 0 ==> r is Ok && is_choice(players->Ok_0@, every_player(), r->Ok_0 as int),
{
    match players {
        Err(e) => {
            let m = "D-Bus error: ".to_string();
            let full = m.concat(e.as_str());
            assert(full@ == "D-Bus error: "@ + e@);
            Err(full)
        },
        Ok(list) => {
            if list.len() == 0 {
                Err("No player found: No player found".to_string())
            } else {
                let none: Vec<String> = Vec::new();
                let r = find_player_with_ignore(&list, &none);
                proof {
                    let e2 = |i: int| !ignored_by(strings_view(none@), list@[i].name@);
                    assert(forall|i: int| 0 <= i < list@.len() ==> #[trigger] e2(i));
                    lemma_chosen_congruent(list@, e2, every_player(), r);
                }
                match r {
                    Some(i) => {
                        Ok(i)
                    },
                    None => {
                        proof {
                            assert(every_player()(0int));
                            assert(false);
                        }
                        Err("No player found: No player found".to_string())
                    },
                }
            }
        },
    }
}

} // verus!
