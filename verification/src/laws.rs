//! Properties of the state machine that span messages or hold of every step.
use vstd::prelude::*;
use vstd::string::*;
use crate::clock::{Timestamp, whole_seconds, total_nanos, well_formed};
use crate::update::{strip_prefixes, Message, EffectView, step_spec, tick, max_auth_attempts, played_secs, scrobble_threshold, scrobble_cap, notification_key, icon_path, toggled, position_of};
use crate::players::TrackInfo;
use crate::state::{AppView, times_ok};
use crate::lastfm::{LastFmView, Track, cover_url};

verus! {

/// No message takes the number of authorisation attempts past twenty.
pub proof fn law_auth_attempts_bounded(s: AppView, m: Message, now: Timestamp)
    requires
        s.auth_attempts <= max_auth_attempts(),
    ensures
        step_spec(s, m, now).0.auth_attempts <= max_auth_attempts(),
        step_spec(s, m, now).0.auth_attempts == s.auth_attempts
            || (m is Tick && step_spec(s, m, now).0.auth_attempts == s.auth_attempts + 1),
{
}

/// While an authorisation is pending (a token, no session, fewer than twenty
/// tries, a client at hand), every tick that comes at least three seconds
/// after the last try (or with no try yet) asks Last.fm for the session
/// again, and counts the try at that tick.
pub proof fn law_auth_retried_when_due(s: AppView, now: Timestamp)
    requires
        s.auth_token is Some,
        s.config.lastfm.session_key is None,
        s.auth_attempts < 20,
        s.lastfm is Some,
        match s.last_auth_attempt {
            Some(last) => total_nanos(now) - total_nanos(last) >= 3_000_000_000,
            None => true,
        },
    ensures
        step_spec(s, Message::Tick, now).1
            == seq![EffectView::CompleteAuthentication { client: s.lastfm->0, token: s.auth_token->0 }],
        step_spec(s, Message::Tick, now).0.last_auth_attempt == Some(now),
        step_spec(s, Message::Tick, now).0.auth_attempts == s.auth_attempts + 1,
{
    match s.last_auth_attempt {
        Some(last) => {
            let d = total_nanos(now) - total_nanos(last);
            assert(d / 1_000_000_000 >= 3) by (nonlinear_arith)
                requires
                    d >= 3_000_000_000,
            ;
        },
        None => {},
    }
}

/// A tick less than three seconds after the last try, or after twenty tries,
/// asks Last.fm for no session and counts no try.
pub proof fn law_auth_not_retried_early(s: AppView, now: Timestamp)
    requires
        s.auth_attempts >= 20 || match s.last_auth_attempt {
            Some(last) => total_nanos(now) - total_nanos(last) < 3_000_000_000,
            None => false,
        },
    ensures
        forall|i: int| 0 <= i < step_spec(s, Message::Tick, now).1.len()
            ==> !(step_spec(s, Message::Tick, now).1[i] is CompleteAuthentication),
        step_spec(s, Message::Tick, now).0.auth_attempts == s.auth_attempts,
        step_spec(s, Message::Tick, now).0.last_auth_attempt == s.last_auth_attempt,
{
    match s.last_auth_attempt {
        Some(last) => {
            let d = total_nanos(now) - total_nanos(last);
            if d < 3_000_000_000 {
                if d >= 0 {
                    assert(d / 1_000_000_000 < 3) by (nonlinear_arith)
                        requires
                            0 <= d < 3_000_000_000,
                    ;
                } else {
                    assert((-d) / 1_000_000_000 >= 0) by (nonlinear_arith)
                        requires
                            -d > 0,
                    ;
                }
            }
        },
        None => {},
    }
}

pub open spec fn asks_scrobble(effects: Seq<EffectView>) -> bool {
    exists|i: int| 0 <= i < effects.len() && effects[i] is Scrobble
}

/// A track is scrobbled at most once: once a scrobble was asked for, no
/// later tick asks for another until the track changes or stops.
pub proof fn law_scrobble_at_most_once(s: AppView, now: Timestamp)
    requires
        s.scrobble_sent,
    ensures
        !asks_scrobble(tick(s, now).1),
        tick(s, now).0.scrobble_sent,
{
}

/// A tick asks for a scrobble only for a track that has played at least half
/// its length or four minutes, whichever is less, that is not scrobbled yet,
/// with scrobbling on and, where the sanity check is on, confirmed by Last.fm;
/// and the scrobble is of the current track with the client at hand.
pub proof fn law_scrobble_only_when_due(s: AppView, now: Timestamp)
    requires
        asks_scrobble(tick(s, now).1),
    ensures
        s.current_track is Some,
        s.current_track->0.duration is Some,
        played_secs(s, now) >= scrobble_threshold(s.current_track->0.duration->0),
        played_secs(s, now) >= s.current_track->0.duration->0 / 2 || played_secs(s, now) >= 240,
        scrobble_threshold(s.current_track->0.duration->0) <= scrobble_cap(),
        scrobble_threshold(s.current_track->0.duration->0) <= s.current_track->0.duration->0 / 2,
        !s.scrobble_sent,
        s.config.general.scrobble_enabled,
        s.config.general.scrobble_sanity_check ==> s.track_verified,
        tick(s, now).0.scrobble_sent,
{
}

/// Signed in with a client, a tick scrobbles the current track as soon as it
/// is due, and asks for nothing else.
pub proof fn law_scrobble_when_due(s: AppView, now: Timestamp)
    requires
        s.config.lastfm.session_key is Some,
        s.lastfm is Some,
        s.current_track is Some,
        s.current_track->0.duration is Some,
        !s.scrobble_sent,
        s.config.general.scrobble_enabled,
        s.config.general.scrobble_sanity_check ==> s.track_verified,
        played_secs(s, now) >= s.current_track->0.duration->0 / 2 || played_secs(s, now) >= 240,
    ensures
        tick(s, now).1 == seq![EffectView::Scrobble { client: s.lastfm->0, track: s.current_track->0 }],
        tick(s, now).0.scrobble_sent,
{
}

/// The seconds a track has played: those counted before its last resume,
/// plus the whole seconds since that resume while it plays.
pub open spec fn seconds_played(s: AppView, now: Timestamp) -> int {
    match s.last_resume_time {
        Some(r) => s.track_total_played_secs + whole_seconds(now, r),
        None => s.track_total_played_secs as int,
    }
}

/// Signed in, with scrobbling on and the current track of known length not
/// yet scrobbled (and confirmed by Last.fm where the sanity check asks for
/// it), a tick asks for a scrobble exactly when the track has played at
/// least half its length or four minutes, whichever is less.
pub proof fn law_scrobble_exactly_when_due(s: AppView, now: Timestamp)
    requires
        times_ok(s),
        well_formed(now),
        s.config.lastfm.session_key is Some,
        s.lastfm is Some,
        s.current_track is Some,
        s.current_track->0.duration is Some,
        !s.scrobble_sent,
        s.config.general.scrobble_enabled,
        s.config.general.scrobble_sanity_check ==> s.track_verified,
        0 <= seconds_played(s, now) <= u64::MAX,
    ensures
        asks_scrobble(tick(s, now).1) <==> (seconds_played(s, now) >= s.current_track->0.duration->0 / 2
            || seconds_played(s, now) >= 240),
{
    match s.last_resume_time {
        Some(r) => {
            let d = total_nanos(now) - total_nanos(r);
            if d >= 0 {
                assert(d / 1_000_000_000 <= i64::MAX) by (nonlinear_arith)
                    requires
                        0 <= d,
                        d <= 8_210_298_412_800 * 1_000_000_000,
                ;
            } else {
                assert((-d) / 1_000_000_000 <= i64::MAX) by (nonlinear_arith)
                    requires
                        0 < -d,
                        -d <= 8_210_298_412_800 * 1_000_000_000,
                ;
            }
            assert(played_secs(s, now) == seconds_played(s, now));
        },
        None => {},
    }
    if seconds_played(s, now) >= s.current_track->0.duration->0 / 2 || seconds_played(s, now) >= 240 {
        assert(tick(s, now).1[0] is Scrobble);
    }
}

/// When the player stops, nothing is current any more: no track, no cover,
/// no time played, not playing, neither announced nor scrobbled; and
/// nothing is asked for.
pub proof fn law_stop_clears_track(s: AppView, now: Timestamp)
    ensures
        ({
            let (s2, e) = step_spec(s, Message::MprisStopped, now);
            &&& s2.current_track is None
            &&& s2.track_image_bytes is None
            &&& s2.track_total_played_secs == 0
            &&& s2.last_resume_time is None
            &&& !s2.now_playing_sent
            &&& !s2.scrobble_sent
            &&& s2.image_cache == s.image_cache
            &&& e.len() == 0
        }),
{
}

/// A new track starts from nothing: not announced, not scrobbled, not
/// confirmed, no time played, counted from `now`; it is announced to Last.fm
/// exactly when there is a client.
pub proof fn law_track_change_resets(s: AppView, t: TrackInfo, now: Timestamp)
    ensures
        ({
            let (s2, e) = step_spec(s, Message::MprisTrackChanged(t), now);
            &&& s2.current_track == Some(t@)
            &&& !s2.now_playing_sent
            &&& !s2.scrobble_sent
            &&& !s2.track_verified
            &&& s2.track_total_played_secs == 0
            &&& s2.last_resume_time == Some(now)
            &&& s2.track_start_time == Some(now)
            &&& ((exists|i: int| 0 <= i < e.len() && e[i] is NowPlaying) <==> s.lastfm is Some)
        }),
{
    let (s2, e) = step_spec(s, Message::MprisTrackChanged(t), now);
    let key = notification_key(t@);
    let notify = s.config.ui.show_notifications && s.last_notified_track != Some(key);
    let e1 = if notify {
        seq![EffectView::Notify { artist: t@.artist, title: t@.title, album: t@.album, icon: icon_path(t@.art_url) }]
    } else {
        Seq::<EffectView>::empty()
    };
    match s.lastfm {
        Some(c) => {
            assert(e[e1.len() as int] is NowPlaying);
        },
        None => {
            assert(e =~= e1);
        },
    }
}

/// After a track change the window's cover is the new track's own: the
/// cached image of its cover address where that address is in the cache,
/// and no image otherwise, whatever image was shown before.
pub proof fn law_track_change_cover(s: AppView, t: TrackInfo, now: Timestamp)
    ensures
        step_spec(s, Message::MprisTrackChanged(t), now).0.track_image_bytes == match t@.art_url {
            Some(u) => if s.image_cache.dom().contains(u) { Some(s.image_cache[u]) } else { None },
            None => None,
        },
        step_spec(s, Message::MprisTrackChanged(t), now).0.image_cache == s.image_cache,
{
}

/// A `file://` cover address stands for the local file after that prefix;
/// an address that does not start with it stands for no local file.
pub proof fn law_icon_of_local_file(p: Seq<char>, u: Seq<char>)
    requires
        !(7 <= p.len() && p.subrange(0, 7) == "file://"@),
        !(7 <= u.len() && u.subrange(0, 7) == "file://"@),
    ensures
        icon_path(Some("file://"@ + p)) == Some(p),
        icon_path(Some(u)) is None,
{
    reveal_strlit("file://");
    let v = "file://"@ + p;
    assert(v.subrange(0, 7) =~= "file://"@);
    assert(v.subrange(7, v.len() as int) =~= p);
    assert(strip_prefixes(p, "file://"@) == p);
}

/// With notifications on, a track not notified last is announced on the
/// desktop with its artist, title, album and local cover, before anything
/// else, and remembered as "artist - title"; with them off nothing is shown.
pub proof fn law_track_change_notifies(s: AppView, t: TrackInfo, now: Timestamp)
    ensures
        ({
            let (s2, e) = step_spec(s, Message::MprisTrackChanged(t), now);
            let key = t@.artist + " - "@ + t@.title;
            &&& s.config.ui.show_notifications && s.last_notified_track != Some(key) ==> {
                &&& e.len() > 0
                &&& e[0] == EffectView::Notify { artist: t@.artist, title: t@.title, album: t@.album, icon: icon_path(t@.art_url) }
                &&& s2.last_notified_track == Some(key)
            }
            &&& !s.config.ui.show_notifications ==> !asks_notification(e) && s2.last_notified_track == s.last_notified_track
        }),
{
    let (s2, e) = step_spec(s, Message::MprisTrackChanged(t), now);
    if !s.config.ui.show_notifications {
        match s.lastfm {
            Some(c) => {
                assert(e =~= seq![
                    EffectView::NowPlaying { client: c, track: t@ },
                    EffectView::FetchTrackInfo { client: c, track: t@ },
                ]);
            },
            None => {
                assert(e =~= Seq::<EffectView>::empty());
            },
        }
    }
}

pub open spec fn asks_notification(effects: Seq<EffectView>) -> bool {
    exists|i: int| 0 <= i < effects.len() && effects[i] is Notify
}

/// A track that is reported again (same artist and title) is not notified a
/// second time.
pub proof fn law_notify_once_per_track(s: AppView, t: TrackInfo, again: TrackInfo, now1: Timestamp, now2: Timestamp)
    requires
        again@.artist == t@.artist,
        again@.title == t@.title,
    ensures
        !asks_notification(step_spec(step_spec(s, Message::MprisTrackChanged(t), now1).0, Message::MprisTrackChanged(again), now2).1),
{
    let s1 = step_spec(s, Message::MprisTrackChanged(t), now1).0;
    let e = step_spec(s1, Message::MprisTrackChanged(again), now2).1;
    if s.config.ui.show_notifications {
        assert(s1.last_notified_track == Some(notification_key(t@)));
    }
    match s1.lastfm {
        Some(c) => {
            assert(e =~= seq![
                EffectView::NowPlaying { client: c, track: again@ },
                EffectView::FetchTrackInfo { client: c, track: again@ },
            ]);
        },
        None => {
            assert(e =~= Seq::<EffectView>::empty());
        },
    }
}

/// Resuming at `t1` and pausing at `t2` adds the whole seconds between the
/// two to the time played (modulo 2^64) and leaves the track paused.
pub proof fn law_pause_counts_played_time(s: AppView, t1: Timestamp, t2: Timestamp)
    requires
        s.last_resume_time is None,
    ensures
        ({
            let s1 = step_spec(s, Message::MprisStatusChanged(true), t1).0;
            let s2 = step_spec(s1, Message::MprisStatusChanged(false), t2).0;
            &&& s2.track_total_played_secs == vstd::wrapping::u64_specs::wrapping_add_signed(
                s.track_total_played_secs,
                whole_seconds(t2, t1) as i64,
            )
            &&& s2.last_resume_time is None
        }),
{
}

/// Finishing the login: once the session arrives and the configuration that
/// holds it is saved, the session is kept, the client holds it, and nothing
/// of the pending authorisation or of an earlier error remains.
pub proof fn law_login_completes(s: AppView, key: String, user: String, t1: Timestamp, t2: Timestamp)
    ensures
        ({
            let (s1, e1) = step_spec(s, Message::AuthSessionComplete(Ok((key, user))), t1);
            let s2 = step_spec(s1, Message::SessionSaved(Ok(())), t2).0;
            &&& e1 == seq![EffectView::SaveConfig { report: true }]
            &&& s2.config.lastfm.session_key == Some(key@)
            &&& s2.config.lastfm.username == Some(user@)
            &&& s2.lastfm == Some(LastFmView {
                api_key: s.config.lastfm.api_key,
                api_secret: s.config.lastfm.api_secret,
                session_key: Some(key@),
            })
            &&& s2.auth_token is None
            &&& s2.auth_url is None
            &&& s2.error_message is None
        }),
{
}

/// Toggling a player flips whether it is on an ignore list without
/// repetitions, and keeps the list without repetitions.
pub proof fn law_toggle_flips_membership(list: Seq<Seq<char>>, x: Seq<char>)
    requires
        list.no_duplicates(),
    ensures
        toggled(list, x).contains(x) <==> !list.contains(x),
        toggled(list, x).no_duplicates(),
{
    lemma_position_spec(list, x);
    match position_of(list, x) {
        Some(i) => {
            let r = list.remove(i);
            assert forall|a: int, b: int| 0 <= a < r.len() && 0 <= b < r.len() && a != b implies r[a] != r[b] by {
                let a0 = if a < i { a } else { a + 1 };
                let b0 = if b < i { b } else { b + 1 };
                assert(r[a] == list[a0] && r[b] == list[b0]);
            }
            if r.contains(x) {
                let j = choose|j: int| 0 <= j < r.len() && r[j] == x;
                let j0 = if j < i { j } else { j + 1 };
                assert(list[j0] == x);
            }
        },
        None => {
            let r = list.push(x);
            assert forall|a: int, b: int| 0 <= a < r.len() && 0 <= b < r.len() && a != b implies r[a] != r[b] by {
                if a < list.len() && b < list.len() {
                    assert(r[a] == list[a] && r[b] == list[b]);
                } else if a < list.len() {
                    assert(r[a] == list[a]);
                } else if b < list.len() {
                    assert(r[b] == list[b]);
                }
            }
            assert(r[list.len() as int] == x);
        },
    }
}

/// Toggling a player that is not on the list twice gives the list back.
pub proof fn law_toggle_twice_restores(list: Seq<Seq<char>>, x: Seq<char>)
    requires
        !list.contains(x),
    ensures
        toggled(toggled(list, x), x) == list,
{
    lemma_position_spec(list, x);
    let l1 = list.push(x);
    lemma_position_spec(l1, x);
    assert(l1[list.len() as int] == x);
    let i = position_of(l1, x)->0;
    assert(i == list.len()) by {
        if i < list.len() {
            assert(list[i] == x);
        }
    }
    assert(l1.remove(i) =~= list);
}

/// `position_of` finds the first occurrence.
/// Pressing a player's Ignore button flips whether it is ignored, keeps the
/// ignore list free of repetitions, changes nothing else of the settings
/// and asks for them to be saved; pressing it twice restores the list.
pub proof fn law_toggle_ignore_message(s: AppView, x: String, y: String, t1: Timestamp, t2: Timestamp)
    requires
        s.config.general.ignored_players.no_duplicates(),
        x@ == y@,
    ensures
        ({
            let (s1, e) = step_spec(s, Message::ToggleIgnore(x), t1);
            let s2 = step_spec(s1, Message::ToggleIgnore(y), t2).0;
            &&& s1.config.general.ignored_players.contains(x@) <==> !s.config.general.ignored_players.contains(x@)
            &&& s1.config.general.ignored_players.no_duplicates()
            &&& forall|z: Seq<char>| z != x@ ==> (s1.config.general.ignored_players.contains(z)
                <==> s.config.general.ignored_players.contains(z))
            &&& s1.config.lastfm == s.config.lastfm
            &&& s1.config.ui == s.config.ui
            &&& e == seq![EffectView::SaveConfig { report: false }]
            &&& !s.config.general.ignored_players.contains(x@) ==> s2.config.general.ignored_players == s.config.general.ignored_players
        }),
{
    let l = s.config.general.ignored_players;
    law_toggle_flips_membership(l, x@);
    lemma_position_spec(l, x@);
    if !l.contains(x@) {
        law_toggle_twice_restores(l, x@);
    }
    let r = toggled(l, x@);
    assert forall|z: Seq<char>| z != x@ implies (r.contains(z) <==> l.contains(z)) by {
        match position_of(l, x@) {
            Some(i) => {
                if l.contains(z) {
                    let j = choose|j: int| 0 <= j < l.len() && l[j] == z;
                    assert(j != i);
                    let j2 = if j < i { j } else { j - 1 };
                    assert(r[j2] == z);
                }
                if r.contains(z) {
                    let j = choose|j: int| 0 <= j < r.len() && r[j] == z;
                    let j2 = if j < i { j } else { j + 1 };
                    assert(l[j2] == z);
                }
            },
            None => {
                if l.contains(z) {
                    let j = choose|j: int| 0 <= j < l.len() && l[j] == z;
                    assert(r[j] == z);
                }
                if r.contains(z) {
                    let j = choose|j: int| 0 <= j < r.len() && r[j] == z;
                    assert(l[j] == z);
                }
            },
        }
    }
}

proof fn lemma_position_spec(list: Seq<Seq<char>>, x: Seq<char>)
    ensures
        match position_of(list, x) {
            Some(i) => 0 <= i < list.len() && list[i] == x && forall|k: int| 0 <= k < i ==> list[k] != x,
            None => !list.contains(x),
        },
    decreases list.len(),
{
    if list.len() > 0 {
        lemma_position_spec(list.drop_first(), x);
        if list[0] != x {
            match position_of(list.drop_first(), x) {
                Some(i) => {
                    assert forall|k: int| 0 <= k < i + 1 implies list[k] != x by {
                        if k > 0 {
                            assert(list[k] == list.drop_first()[k - 1]);
                        }
                    }
                },
                None => {
                    if list.contains(x) {
                        let j = choose|j: int| 0 <= j < list.len() && list[j] == x;
                        assert(list.drop_first()[j - 1] == x);
                    }
                },
            }
        }
    }
}

/// The state and all the work after the messages of `run` arrive in turn,
/// each at its time.
pub open spec fn run_messages(s: AppView, run: Seq<(Message, Timestamp)>) -> (AppView, Seq<EffectView>)
    decreases run.len(),
{
    if run.len() == 0 {
        (s, Seq::empty())
    } else {
        let (s1, e1) = run_messages(s, run.drop_last());
        let (s2, e2) = step_spec(s1, run.last().0, run.last().1);
        (s2, e1 + e2)
    }
}

/// How many scrobbles `e` asks for.
pub open spec fn scrobble_count(e: Seq<EffectView>) -> nat
    decreases e.len(),
{
    if e.len() == 0 {
        0
    } else {
        scrobble_count(e.drop_last()) + if e.last() is Scrobble { 1nat } else { 0nat }
    }
}

proof fn lemma_scrobble_count_append(a: Seq<EffectView>, b: Seq<EffectView>)
    ensures
        scrobble_count(a + b) == scrobble_count(a) + scrobble_count(b),
    decreases b.len(),
{
    if b.len() == 0 {
        assert(a + b =~= a);
    } else {
        lemma_scrobble_count_append(a, b.drop_last());
        assert((a + b).drop_last() =~= a + b.drop_last());
        assert((a + b).last() == b.last());
    }
}

proof fn lemma_scrobble_count_small(e: Seq<EffectView>)
    requires
        e.len() <= 1,
    ensures
        scrobble_count(e) == if e.len() == 1 && e[0] is Scrobble { 1nat } else { 0nat },
{
    if e.len() == 1 {
        assert(e.drop_last() =~= Seq::<EffectView>::empty());
        assert(scrobble_count(e.drop_last()) == 0);
        assert(e.last() == e[0]);
    }
}

/// One message other than a track change or a stop: it asks for at most one
/// scrobble, only while the track is not scrobbled yet, and then marks it
/// scrobbled; a scrobbled track stays scrobbled.
proof fn lemma_step_scrobble(s: AppView, m: Message, now: Timestamp)
    requires
        !(m is MprisTrackChanged),
        !(m is MprisStopped),
    ensures
        ({
            let (s2, e) = step_spec(s, m, now);
            &&& s.scrobble_sent ==> s2.scrobble_sent
            &&& scrobble_count(e) <= 1
            &&& scrobble_count(e) == 1 ==> !s.scrobble_sent && s2.scrobble_sent
        }),
{
    let (s2, e) = step_spec(s, m, now);
    assert(e.len() <= 1);
    lemma_scrobble_count_small(e);
    if e.len() == 1 && e[0] is Scrobble {
        assert(m is Tick);
    }
}

/// A track is scrobbled at most once per play: over any run of messages
/// without a track change or a stop, at most one scrobble is asked for, none
/// once the track is scrobbled, and a scrobbled track stays scrobbled (a
/// failed scrobble does not clear the mark).
pub proof fn law_scrobble_once_per_play(s: AppView, run: Seq<(Message, Timestamp)>)
    requires
        forall|i: int| 0 <= i < run.len() ==> !((#[trigger] run[i]).0 is MprisTrackChanged) && !(run[i].0 is MprisStopped),
    ensures
        ({
            let (s2, e) = run_messages(s, run);
            &&& scrobble_count(e) <= 1
            &&& s.scrobble_sent ==> scrobble_count(e) == 0 && s2.scrobble_sent
            &&& scrobble_count(e) == 1 ==> s2.scrobble_sent
        }),
    decreases run.len(),
{
    if run.len() == 0 {
        assert(scrobble_count(Seq::<EffectView>::empty()) == 0);
    } else {
        let d = run.drop_last();
        assert forall|i: int| 0 <= i < d.len() implies !((#[trigger] d[i]).0 is MprisTrackChanged) && !(d[i].0 is MprisStopped) by {
            assert(d[i] == run[i]);
        }
        law_scrobble_once_per_play(s, d);
        let (s1, e1) = run_messages(s, d);
        let last = run[run.len() - 1];
        assert(run.last() == last);
        lemma_step_scrobble(s1, last.0, last.1);
        let (s2, e2) = step_spec(s1, last.0, last.1);
        lemma_scrobble_count_append(e1, e2);
    }
}

/// Whether `m` is a downloaded cover image for the address `u`.
pub open spec fn stores_cover(m: Message, u: Seq<char>) -> bool {
    match m {
        Message::ImageBytesReceived(Ok((url, _))) => url@ == u,
        _ => false,
    }
}

/// One message changes the image cache only when it brings a downloaded
/// image, which it keeps under its address.
proof fn lemma_step_cache(s: AppView, m: Message, now: Timestamp)
    ensures
        step_spec(s, m, now).0.image_cache == match m {
            Message::ImageBytesReceived(Ok((url, bytes))) => s.image_cache.insert(url@, bytes@),
            _ => s.image_cache,
        },
{
}

/// The image cache only grows: an address once cached stays cached, and
/// keeps its image unless a later download for that address replaces it.
pub proof fn law_cache_keeps_images(s: AppView, run: Seq<(Message, Timestamp)>, u: Seq<char>)
    requires
        s.image_cache.dom().contains(u),
    ensures
        run_messages(s, run).0.image_cache.dom().contains(u),
        (forall|i: int| 0 <= i < run.len() ==> !stores_cover((#[trigger] run[i]).0, u))
            ==> run_messages(s, run).0.image_cache[u] == s.image_cache[u],
    decreases run.len(),
{
    if run.len() > 0 {
        let d = run.drop_last();
        law_cache_keeps_images(s, d, u);
        let s1 = run_messages(s, d).0;
        let last = run[run.len() - 1];
        assert(run.last() == last);
        lemma_step_cache(s1, last.0, last.1);
        if forall|i: int| 0 <= i < run.len() ==> !stores_cover((#[trigger] run[i]).0, u) {
            assert forall|i: int| 0 <= i < d.len() implies !stores_cover((#[trigger] d[i]).0, u) by {
                assert(d[i] == run[i]);
            }
            assert(!stores_cover(last.0, u));
        }
    }
}

/// A downloaded cover is shown, and once cached it is shown again for a
/// track whose largest cover has that address, without a new download.
pub proof fn law_cached_cover_is_used(
    s: AppView,
    url: String,
    bytes: Vec<u8>,
    info: Track,
    t1: Timestamp,
    t2: Timestamp,
)
    requires
        cover_url(info) == Some(url@),
        url@.len() > 0,
    ensures
        ({
            let s1 = step_spec(s, Message::ImageBytesReceived(Ok((url, bytes))), t1).0;
            let (s2, e) = step_spec(s1, Message::TrackInfoReceived(Ok(info)), t2);
            &&& s1.track_image_bytes == Some(bytes@)
            &&& s1.image_cache[url@] == bytes@
            &&& s2.track_image_bytes == Some(bytes@)
            &&& s2.track_verified
            &&& e.len() == 0
        }),
{
}

} // verus!
