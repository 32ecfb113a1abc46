//! What the window shows for a state, from top to bottom.
use vstd::prelude::*;
use vstd::string::*;
use crate::config::{opt_str_view, strings_view};
use crate::state::{App, AppView};
use crate::players::{clone_opt_string, ignored_by, is_ignored};

verus! {

broadcast use vstd::string::group_string_axioms;

/// One line or control of the window.
pub enum ScreenItem {
    /// The cover image, from fetched bytes.
    CoverBytes(Vec<u8>),
    /// The cover image, from a local file.
    CoverFile(String),
    Artist(String),
    Title(String),
    Album(String),
    /// "Now Playing sent"
    NowPlayingSent,
    /// "Scrobbled"
    Scrobbled,
    /// "Verified on Last.fm"
    Verified,
    /// "Track verification pending/failed"
    VerificationPending,
    /// "No track playing"
    NoTrack,
    /// "Players:"
    PlayersHeader,
    /// A player with an Ignore (or Unignore, when `ignored`) button.
    Player { name: String, ignored: bool },
    /// "Error: " and the message.
    Error(String),
    /// "Missing Last.fm API credentials"
    MissingCredentials,
    /// "Add api_key and api_secret to config.toml"
    CredentialsHint,
    /// "Getting authorization token..."
    GettingToken,
    /// "Authorization in progress"
    AuthInProgress,
    /// The "Open Authorization Page" button, for the address.
    OpenAuthPage(String),
    /// "1. Authorize the app in your browser"
    AuthorizeHint,
    /// "Attempting auth (n/20)..."
    AttemptingAuth(u32),
    /// The small "Waiting for authorization..." under the buttons.
    AwaitingAuthorization,
    /// The "Complete Manually" button.
    CompleteManually,
    /// "Waiting for authorization..." as the status of the login.
    WaitingForAuthorization,
}

pub ghost enum ScreenItemView {
    CoverBytes(Seq<u8>),
    CoverFile(Seq<char>),
    Artist(Seq<char>),
    Title(Seq<char>),
    Album(Seq<char>),
    NowPlayingSent,
    Scrobbled,
    Verified,
    VerificationPending,
    NoTrack,
    PlayersHeader,
    Player { name: Seq<char>, ignored: bool },
    Error(Seq<char>),
    MissingCredentials,
    CredentialsHint,
    GettingToken,
    AuthInProgress,
    OpenAuthPage(Seq<char>),
    AuthorizeHint,
    AttemptingAuth(u32),
    AwaitingAuthorization,
    CompleteManually,
    WaitingForAuthorization,
}

impl View for ScreenItem {
    type V = ScreenItemView;

    open spec fn view(&self) -> ScreenItemView {
        match self {
            ScreenItem::CoverBytes(b) => ScreenItemView::CoverBytes(b@),
            ScreenItem::CoverFile(p) => ScreenItemView::CoverFile(p@),
            ScreenItem::Artist(a) => ScreenItemView::Artist(a@),
            ScreenItem::Title(t) => ScreenItemView::Title(t@),
            ScreenItem::Album(a) => ScreenItemView::Album(a@),
            ScreenItem::NowPlayingSent => ScreenItemView::NowPlayingSent,
            ScreenItem::Scrobbled => ScreenItemView::Scrobbled,
            ScreenItem::Verified => ScreenItemView::Verified,
            ScreenItem::VerificationPending => ScreenItemView::VerificationPending,
            ScreenItem::NoTrack => ScreenItemView::NoTrack,
            ScreenItem::PlayersHeader => ScreenItemView::PlayersHeader,
            ScreenItem::Player { name, ignored } => ScreenItemView::Player { name: name@, ignored: *ignored },
            ScreenItem::Error(e) => ScreenItemView::Error(e@),
            ScreenItem::MissingCredentials => ScreenItemView::MissingCredentials,
            ScreenItem::CredentialsHint => ScreenItemView::CredentialsHint,
            ScreenItem::GettingToken => ScreenItemView::GettingToken,
            ScreenItem::AuthInProgress => ScreenItemView::AuthInProgress,
            ScreenItem::OpenAuthPage(u) => ScreenItemView::OpenAuthPage(u@),
            ScreenItem::AuthorizeHint => ScreenItemView::AuthorizeHint,
            ScreenItem::AttemptingAuth(n) => ScreenItemView::AttemptingAuth(*n),
            ScreenItem::AwaitingAuthorization => ScreenItemView::AwaitingAuthorization,
            ScreenItem::CompleteManually => ScreenItemView::CompleteManually,
            ScreenItem::WaitingForAuthorization => ScreenItemView::WaitingForAuthorization,
        }
    }
}

pub open spec fn items_view(v: Seq<ScreenItem>) -> Seq<ScreenItemView> {
    v.map_values(|i: ScreenItem| i@)
}

pub open spec fn opt_item(present: bool, item: ScreenItemView) -> Seq<ScreenItemView> {
    if present { seq![item] } else { Seq::empty() }
}

/// The file path of a cover address that starts with `file://` (that
/// prefix and its repetitions removed).
pub open spec fn cover_file(art_url: Option<Seq<char>>) -> Option<Seq<char>> {
    crate::update::icon_path(art_url)
}

/// The cover of the current track: fetched bytes, else a local file.
pub open spec fn cover_section(s: AppView) -> Seq<ScreenItemView> {
    match s.track_image_bytes {
        Some(b) => seq![ScreenItemView::CoverBytes(b)],
        None => match cover_file(s.current_track->0.art_url) {
            Some(p) => seq![ScreenItemView::CoverFile(p)],
            None => Seq::empty(),
        },
    }
}

/// Artist, title and album of the current track.
pub open spec fn names_section(s: AppView) -> Seq<ScreenItemView> {
    let t = s.current_track->0;
    seq![ScreenItemView::Artist(t.artist), ScreenItemView::Title(t.title)] + match t.album {
        Some(a) => seq![ScreenItemView::Album(a)],
        None => Seq::empty(),
    }
}

/// The Last.fm status lines of the current track.
pub open spec fn status_section(s: AppView) -> Seq<ScreenItemView> {
    opt_item(s.now_playing_sent, ScreenItemView::NowPlayingSent)
        + opt_item(s.scrobble_sent, ScreenItemView::Scrobbled)
        + if s.config.general.scrobble_sanity_check {
            if s.track_verified { seq![ScreenItemView::Verified] } else { seq![ScreenItemView::VerificationPending] }
        } else {
            Seq::empty()
        }
}

/// The track part: cover, artist, title, album and the Last.fm status lines.
pub open spec fn track_section(s: AppView) -> Seq<ScreenItemView> {
    match s.current_track {
        Some(t) => cover_section(s) + names_section(s) + status_section(s),
        None => seq![ScreenItemView::NoTrack],
    }
}

/// The players part: a header and each known player, marked where its name
/// matches a pattern of the ignore list; nothing when no player is known.
pub open spec fn players_section(players: Seq<Seq<char>>, ignored: Seq<Seq<char>>) -> Seq<ScreenItemView> {
    if players.len() == 0 {
        Seq::empty()
    } else {
        seq![ScreenItemView::PlayersHeader] + Seq::new(
            players.len(),
            |i: int| ScreenItemView::Player { name: players[i], ignored: ignored_by(ignored, players[i]) },
        )
    }
}

/// The login part, shown while there is no session.
pub open spec fn login_section(s: AppView) -> Seq<ScreenItemView> {
    if s.config.lastfm.session_key is Some {
        Seq::empty()
    } else if s.config.lastfm.api_key.len() == 0 || s.config.lastfm.api_secret.len() == 0 {
        seq![ScreenItemView::MissingCredentials, ScreenItemView::CredentialsHint]
    } else if s.auth_url is None {
        seq![ScreenItemView::GettingToken]
    } else if s.auth_token is Some {
        seq![
            ScreenItemView::AuthInProgress,
            ScreenItemView::OpenAuthPage(s.auth_url->0),
            ScreenItemView::AuthorizeHint,
            if s.auth_attempts > 0 {
                ScreenItemView::AttemptingAuth(s.auth_attempts)
            } else {
                ScreenItemView::AwaitingAuthorization
            },
            ScreenItemView::CompleteManually,
        ]
    } else {
        seq![ScreenItemView::WaitingForAuthorization]
    }
}

/// Everything the window shows, top to bottom; nothing while it is hidden.
pub open spec fn screen(s: AppView) -> Seq<ScreenItemView> {
    if !s.visible {
        Seq::empty()
    } else {
        track_section(s) + players_section(s.all_players, s.config.general.ignored_players)
            + match s.error_message {
                Some(e) => seq![ScreenItemView::Error(e)],
                None => Seq::empty(),
            } + login_section(s)
    }
}

pub open spec fn no_album(q: Seq<ScreenItemView>) -> bool {
    forall|i: int| 0 <= i < q.len() ==> !(#[trigger] q[i] is Album)
}

proof fn lemma_no_album_concat(a: Seq<ScreenItemView>, b: Seq<ScreenItemView>)
    requires
        no_album(a),
        no_album(b),
    ensures
        no_album(a + b),
{
    assert forall|i: int| 0 <= i < (a + b).len() implies !(#[trigger] (a + b)[i] is Album) by {
        if i < a.len() {
            assert((a + b)[i] == a[i]);
        } else {
            assert((a + b)[i] == b[i - a.len()]);
        }
    }
}

proof fn lemma_no_album_below_names(s: AppView)
    ensures
        no_album(status_section(s)),
        no_album(players_section(s.all_players, s.config.general.ignored_players)),
        no_album(match s.error_message {
            Some(e) => seq![ScreenItemView::Error(e)],
            None => Seq::<ScreenItemView>::empty(),
        }),
        no_album(login_section(s)),
{
    let p = players_section(s.all_players, s.config.general.ignored_players);
    assert forall|j: int| 0 <= j < p.len() implies !(#[trigger] p[j] is Album) by {
        if j > 0 {
            assert(p[j] == ScreenItemView::Player {
                name: s.all_players[j - 1],
                ignored: ignored_by(s.config.general.ignored_players, s.all_players[j - 1]),
            });
        }
    }
    let c = status_section(s);
    assert forall|j: int| 0 <= j < c.len() implies !(#[trigger] c[j] is Album) by {
        let c1 = opt_item(s.now_playing_sent, ScreenItemView::NowPlayingSent);
        let c2 = opt_item(s.scrobble_sent, ScreenItemView::Scrobbled);
        let c3 = if s.config.general.scrobble_sanity_check {
            if s.track_verified { seq![ScreenItemView::Verified] } else { seq![ScreenItemView::VerificationPending] }
        } else {
            Seq::<ScreenItemView>::empty()
        };
        assert(c == c1 + c2 + c3);
        if j < c1.len() {
            assert(c[j] == c1[j]);
        } else if j < c1.len() + c2.len() {
            assert(c[j] == c2[j - c1.len()]);
        } else {
            assert(c[j] == c3[j - c1.len() - c2.len()]);
        }
    }
}

/// While a track is current, the visible window shows its artist, then its
/// title and, when the album is known, the album right after the title; no
/// album line is shown for a track whose album is unknown.
pub proof fn law_track_names_shown(s: AppView)
    requires
        s.visible,
        s.current_track is Some,
    ensures
        exists|k: int| #![trigger screen(s)[k]]
            0 <= k && k + 2 <= screen(s).len()
            && screen(s)[k] == ScreenItemView::Artist(s.current_track->0.artist)
            && screen(s)[k + 1] == ScreenItemView::Title(s.current_track->0.title)
            && match s.current_track->0.album {
                Some(a) => k + 3 <= screen(s).len() && screen(s)[k + 2] == ScreenItemView::Album(a),
                None => true,
            },
        s.current_track->0.album is None ==> no_album(screen(s)),
{
    let t = s.current_track->0;
    let a = cover_section(s);
    let b = names_section(s);
    let c = status_section(s);
    let p = players_section(s.all_players, s.config.general.ignored_players);
    let e = match s.error_message {
        Some(e) => seq![ScreenItemView::Error(e)],
        None => Seq::<ScreenItemView>::empty(),
    };
    let l = login_section(s);
    assert(screen(s) == a + b + c + p + e + l);
    let k = a.len() as int;
    assert(screen(s)[k] == b[0]);
    assert(screen(s)[k + 1] == b[1]);
    match t.album {
        Some(al) => {
            assert(screen(s)[k + 2] == b[2]);
        },
        None => {
            assert(no_album(a));
            assert(b =~= seq![ScreenItemView::Artist(t.artist), ScreenItemView::Title(t.title)]);
            assert(no_album(b));
            lemma_no_album_below_names(s);
            lemma_no_album_concat(a, b);
            lemma_no_album_concat(a + b, c);
            lemma_no_album_concat(a + b + c, p);
            lemma_no_album_concat(a + b + c + p, e);
            lemma_no_album_concat(a + b + c + p + e, l);
        },
    }
}

/// The top of the window: nothing at all while it is hidden; "No track
/// playing" when no track is current; else the fetched cover where there is
/// one, and the artist first where there is no cover at all.
pub proof fn law_screen_top(s: AppView)
    ensures
        !s.visible ==> screen(s).len() == 0,
        s.visible && s.current_track is None ==> screen(s).len() > 0 && screen(s)[0] == ScreenItemView::NoTrack,
        s.visible && s.current_track is Some && s.track_image_bytes is Some ==> screen(s).len() > 0
            && screen(s)[0] == ScreenItemView::CoverBytes(s.track_image_bytes->0),
        s.visible && s.current_track is Some && s.track_image_bytes is None && s.current_track->0.art_url is None
            ==> screen(s).len() > 0 && screen(s)[0] == ScreenItemView::Artist(s.current_track->0.artist),
{
    if s.visible {
        let rest = players_section(s.all_players, s.config.general.ignored_players)
            + match s.error_message {
                Some(e) => seq![ScreenItemView::Error(e)],
                None => Seq::<ScreenItemView>::empty(),
            } + login_section(s);
        assert(screen(s) == track_section(s) + rest);
        assert(screen(s)[0] == track_section(s)[0]);
        if s.current_track is Some {
            assert(track_section(s) == cover_section(s) + names_section(s) + status_section(s));
            assert(track_section(s)[0] == (cover_section(s) + names_section(s))[0]);
        }
    }
}

fn push_item(items: &mut Vec<ScreenItem>, item: ScreenItem)
    ensures
        items_view(final(items)@) == items_view(old(items)@).push(item@),
{
    items.push(item);
    assert(items_view(items@) =~= items_view(old(items)@).push(item@));
}

fn push_cover(items: &mut Vec<ScreenItem>, state: &App)
    requires
        state.current_track is Some,
    ensures
        items_view(final(items)@) == items_view(old(items)@) + cover_section(state@),
{
    let ghost start = items_view(items@);
    match &state.track_image_bytes {
        Some(b) => push_item(items, ScreenItem::CoverBytes(b.clone())),
        None => {
            match &state.current_track {
                Some(t) => {
                    match &t.art_url {
                        Some(u) => {
                            match crate::update::cover_path(u) {
                                Some(p) => push_item(items, ScreenItem::CoverFile(p)),
                                None => {},
                            }
                        },
                        None => {},
                    }
                },
                None => {},
            }
        },
    }
    assert(items_view(items@) =~= start + cover_section(state@));
}

fn push_names(items: &mut Vec<ScreenItem>, state: &App)
    requires
        state.current_track is Some,
    ensures
        items_view(final(items)@) == items_view(old(items)@) + names_section(state@),
{
    let ghost start = items_view(items@);
    match &state.current_track {
        Some(t) => {
            push_item(items, ScreenItem::Artist(t.artist.clone()));
            push_item(items, ScreenItem::Title(t.title.clone()));
            match &t.album {
                Some(a) => push_item(items, ScreenItem::Album(a.clone())),
                None => {},
            }
        },
        None => {},
    }
    assert(items_view(items@) =~= start + names_section(state@));
}

fn push_status(items: &mut Vec<ScreenItem>, state: &App)
    ensures
        items_view(final(items)@) == items_view(old(items)@) + status_section(state@),
{
    let ghost start = items_view(items@);
    if state.now_playing_sent {
        push_item(items, ScreenItem::NowPlayingSent);
    }
    let ghost a = items_view(items@);
    if state.scrobble_sent {
        push_item(items, ScreenItem::Scrobbled);
    }
    let ghost b = items_view(items@);
    if state.config.general.scrobble_sanity_check {
        if state.track_verified {
            push_item(items, ScreenItem::Verified);
        } else {
            push_item(items, ScreenItem::VerificationPending);
        }
    }
    assert(a =~= start + opt_item(state@.now_playing_sent, ScreenItemView::NowPlayingSent));
    assert(b =~= a + opt_item(state@.scrobble_sent, ScreenItemView::Scrobbled));
    assert(items_view(items@) =~= start + status_section(state@));
}

fn push_track_section(items: &mut Vec<ScreenItem>, state: &App)
    ensures
        items_view(final(items)@) == items_view(old(items)@) + track_section(state@),
{
    let ghost start = items_view(items@);
    if state.current_track.is_some() {
        push_cover(items, state);
        push_names(items, state);
        push_status(items, state);
        assert(items_view(items@) =~= start + track_section(state@));
    } else {
        push_item(items, ScreenItem::NoTrack);
        assert(items_view(items@) =~= start + track_section(state@));
    }
}

fn push_players_section(items: &mut Vec<ScreenItem>, players: &Vec<String>, ignored: &Vec<String>)
    ensures
        items_view(final(items)@) == items_view(old(items)@) + players_section(strings_view(players@), strings_view(ignored@)),
{
    let ghost start = items_view(items@);
    let ghost pv = strings_view(players@);
    let ghost iv = strings_view(ignored@);
    if players.len() == 0 {
        assert(items_view(items@) =~= start + players_section(pv, iv));
        return;
    }
    push_item(items, ScreenItem::PlayersHeader);
    let mut k: usize = 0;
    while k < players.len()
        invariant
            pv == strings_view(players@),
            iv == strings_view(ignored@),
            k <= players@.len(),
            items_view(items@) == start + seq![ScreenItemView::PlayersHeader] + Seq::new(
                k as nat,
                |i: int| ScreenItemView::Player { name: pv[i], ignored: ignored_by(iv, pv[i]) },
            ),
        decreases players@.len() - k,
    {
        let ig = is_ignored(&players[k], ignored);
        push_item(items, ScreenItem::Player { name: players[k].clone(), ignored: ig });
        k = k + 1;
        assert(items_view(items@) =~= start + seq![ScreenItemView::PlayersHeader] + Seq::new(
            k as nat,
            |i: int| ScreenItemView::Player { name: pv[i], ignored: ignored_by(iv, pv[i]) },
        ));
    }
}

fn push_login_section(items: &mut Vec<ScreenItem>, state: &App)
    ensures
        items_view(final(items)@) == items_view(old(items)@) + login_section(state@),
{
    let ghost start = items_view(items@);
    if state.config.lastfm.session_key.is_some() {
        assert(items_view(items@) =~= start + login_section(state@));
        return;
    }
    if !state.config.has_credentials() {
        push_item(items, ScreenItem::MissingCredentials);
        push_item(items, ScreenItem::CredentialsHint);
    } else {
        match &state.auth_url {
            None => push_item(items, ScreenItem::GettingToken),
            Some(url) => {
                if state.auth_token.is_some() {
                    push_item(items, ScreenItem::AuthInProgress);
                    push_item(items, ScreenItem::OpenAuthPage(url.clone()));
                    push_item(items, ScreenItem::AuthorizeHint);
                    if state.auth_attempts > 0 {
                        push_item(items, ScreenItem::AttemptingAuth(state.auth_attempts));
                    } else {
                        push_item(items, ScreenItem::AwaitingAuthorization);
                    }
                    push_item(items, ScreenItem::CompleteManually);
                } else {
                    push_item(items, ScreenItem::WaitingForAuthorization);
                }
            },
        }
    }
    assert(items_view(items@) =~= start + login_section(state@));
}

/// Everything the window shows for `state`, top to bottom; nothing while
/// it is hidden.
pub fn view_items(state: &App) -> (items: Vec<ScreenItem>)
    ensures
        items_view(items@) == screen(state@),
{
    let mut items: Vec<ScreenItem> = Vec::new();
    if !state.visible {
        assert(items_view(items@) =~= screen(state@));
        return items;
    }
    assert(items_view(items@) =~= Seq::<ScreenItemView>::empty());
    push_track_section(&mut items, state);
    let ghost a = items_view(items@);
    push_players_section(&mut items, &state.all_players, &state.config.general.ignored_players);
    let ghost b = items_view(items@);
    match &state.error_message {
        Some(e) => {
            push_item(&mut items, ScreenItem::Error(e.clone()));
        },
        None => {},
    }
    let ghost c = items_view(items@);
    push_login_section(&mut items, state);
    proof {
        let s = state@;
        assert(a =~= track_section(s));
        assert(b =~= track_section(s) + players_section(s.all_players, s.config.general.ignored_players));
        assert(c =~= b + match s.error_message {
            Some(e) => seq![ScreenItemView::Error(e)],
            None => Seq::<ScreenItemView>::empty(),
        });
        assert(items_view(items@) =~= screen(s));
    }
    items
}

} // verus!
