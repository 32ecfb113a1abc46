//! How player and tray events become messages, and which ignore patterns
//! the player watcher is handed.
use vstd::prelude::*;
use vstd::string::*;
use crate::config::strings_view;
use crate::glob::{glob_from, glob_match};
use crate::players::{Metadata, TrackInfo, TrackInfoView, track_of, ignored_by};
use crate::update::Message;

verus! {

broadcast use vstd::string::group_string_axioms;

/// What a player reports.
pub enum PlayerEvent {
    TrackChanged(Metadata),
    Playing,
    Paused,
    Stopped,
    PlayerShutDown,
    /// Any other report (volume, seeking, loop and shuffle changes, ...).
    Other,
}

/// The message for a player event: a new track, a change between playing and
/// paused, the player stopping or going away; the rest is ignored.
pub fn message_for_event(event: PlayerEvent) -> (m: Message)
    ensures
        match event {
            PlayerEvent::TrackChanged(md) => m matches Message::MprisTrackChanged(t) && t@ == track_of(md),
            PlayerEvent::Playing => m matches Message::MprisStatusChanged(true),
            PlayerEvent::Paused => m matches Message::MprisStatusChanged(false),
            PlayerEvent::Stopped => m is MprisStopped,
            PlayerEvent::PlayerShutDown => m is MprisStopped,
            PlayerEvent::Other => m is NoOp,
        },
{
    match event {
        PlayerEvent::TrackChanged(md) => {
            match TrackInfo::from_metadata(&md) {
                Some(t) => Message::MprisTrackChanged(t),
                None => Message::NoOp,
            }
        },
        PlayerEvent::Playing => Message::MprisStatusChanged(true),
        PlayerEvent::Paused => Message::MprisStatusChanged(false),
        PlayerEvent::Stopped => Message::MprisStopped,
        PlayerEvent::PlayerShutDown => Message::MprisStopped,
        PlayerEvent::Other => Message::NoOp,
    }
}

/// The events reported for a player when it is found: its track and whether
/// it plays, where its metadata could be read; nothing otherwise.
pub fn events_on_discovery(metadata: Option<Metadata>, playing: bool) -> (v: Vec<PlayerEvent>)
    ensures
        match metadata {
            Some(md) => v@.len() == 2 && (v@[0] matches PlayerEvent::TrackChanged(m) && m == md)
                && (if playing { v@[1] is Playing } else { v@[1] is Paused }),
            None => v@.len() == 0,
        },
{
    let mut v: Vec<PlayerEvent> = Vec::new();
    match metadata {
        Some(md) => {
            v.push(PlayerEvent::TrackChanged(md));
            if playing {
                v.push(PlayerEvent::Playing);
            } else {
                v.push(PlayerEvent::Paused);
            }
        },
        None => {},
    }
    v
}

/// What the player watcher has just seen.
pub enum WatchInput {
    /// A player to follow was found; its metadata where it could be read,
    /// and whether it plays.
    Found { metadata: Option<Metadata>, playing: bool },
    /// An event of the followed player.
    Event(PlayerEvent),
    /// The followed player's events ended (it went away).
    EventsEnded,
    /// No player to follow was found.
    NotFound,
}

/// The part of a watcher message that matters for its order.
pub ghost enum WatchShape {
    TrackChanged(TrackInfoView),
    Status(bool),
    Stopped,
    /// The message that asks for nothing.
    NoOp,
    /// Any other message; the watcher sends none.
    Other,
}

/// A message as the watcher's contract sees it: every message it can send
/// has a shape of its own.
pub open spec fn shape_of(m: Message) -> WatchShape {
    match m {
        Message::MprisTrackChanged(t) => WatchShape::TrackChanged(t@),
        Message::MprisStatusChanged(p) => WatchShape::Status(p),
        Message::MprisStopped => WatchShape::Stopped,
        Message::NoOp => WatchShape::NoOp,
        _ => WatchShape::Other,
    }
}

pub open spec fn shapes(v: Seq<Message>) -> Seq<WatchShape> {
    v.map_values(|m: Message| shape_of(m))
}

/// The shape of the message for a player event.
pub open spec fn event_shape(e: PlayerEvent) -> WatchShape {
    match e {
        PlayerEvent::TrackChanged(md) => WatchShape::TrackChanged(track_of(md)),
        PlayerEvent::Playing => WatchShape::Status(true),
        PlayerEvent::Paused => WatchShape::Status(false),
        PlayerEvent::Stopped => WatchShape::Stopped,
        PlayerEvent::PlayerShutDown => WatchShape::Stopped,
        PlayerEvent::Other => WatchShape::NoOp,
    }
}

/// The messages the watcher sends for what it has seen: for a found player
/// its track and then whether it plays (nothing where its metadata could not
/// be read); for an event its message; a stop when the events end.
pub open spec fn input_shapes(i: WatchInput) -> Seq<WatchShape> {
    match i {
        WatchInput::Found { metadata, playing } => match metadata {
            Some(md) => seq![WatchShape::TrackChanged(track_of(md)), WatchShape::Status(playing)],
            None => Seq::empty(),
        },
        WatchInput::Event(e) => seq![event_shape(e)],
        WatchInput::EventsEnded => seq![WatchShape::Stopped],
        WatchInput::NotFound => Seq::empty(),
    }
}

/// The messages for what the player watcher has just seen.
pub fn watch_messages(input: WatchInput) -> (v: Vec<Message>)
    ensures
        shapes(v@) == input_shapes(input),
{
    let mut v: Vec<Message> = Vec::new();
    match input {
        WatchInput::Found { metadata, playing } => {
            let ghost md0 = metadata;
            let evs = events_on_discovery(metadata, playing);
            if evs.len() == 2 {
                let mut evs = evs;
                let second = evs.pop();
                let first = evs.pop();
                match (first, second) {
                    (Some(a), Some(b)) => {
                        v.push(message_for_event(a));
                        v.push(message_for_event(b));
                    },
                    _ => {},
                }
            }
            proof {
                match md0 {
                    Some(md) => {
                        assert(shapes(v@) =~= seq![WatchShape::TrackChanged(track_of(md)), WatchShape::Status(playing)]);
                    },
                    None => {
                        assert(shapes(v@) =~= Seq::<WatchShape>::empty());
                    },
                }
            }
        },
        WatchInput::Event(e) => {
            let ghost e0 = e;
            v.push(message_for_event(e));
            assert(shapes(v@) =~= seq![event_shape(e0)]);
        },
        WatchInput::EventsEnded => {
            v.push(Message::MprisStopped);
            assert(shapes(v@) =~= seq![WatchShape::Stopped]);
        },
        WatchInput::NotFound => {
            assert(shapes(v@) =~= Seq::<WatchShape>::empty());
        },
    }
    v
}

/// The messages for a run of what the watcher has seen, in order.
pub open spec fn inputs_shapes(inputs: Seq<WatchInput>) -> Seq<WatchShape>
    decreases inputs.len(),
{
    if inputs.len() == 0 {
        Seq::empty()
    } else {
        inputs_shapes(inputs.drop_last()) + input_shapes(inputs.last())
    }
}

proof fn lemma_inputs_shapes_append(a: Seq<WatchInput>, b: Seq<WatchInput>)
    ensures
        inputs_shapes(a + b) == inputs_shapes(a) + inputs_shapes(b),
    decreases b.len(),
{
    if b.len() == 0 {
        assert(a + b =~= a);
        assert(inputs_shapes(a) + inputs_shapes(b) =~= inputs_shapes(a));
    } else {
        lemma_inputs_shapes_append(a, b.drop_last());
        assert((a + b).drop_last() =~= a + b.drop_last());
        assert((a + b).last() == b.last());
        assert(inputs_shapes(a) + inputs_shapes(b.drop_last()) + input_shapes(b.last())
            =~= inputs_shapes(a) + (inputs_shapes(b.drop_last()) + input_shapes(b.last())));
    }
}

pub open spec fn as_inputs(evs: Seq<PlayerEvent>) -> Seq<WatchInput> {
    evs.map_values(|e: PlayerEvent| WatchInput::Event(e))
}

proof fn lemma_events_shapes(evs: Seq<PlayerEvent>)
    ensures
        inputs_shapes(as_inputs(evs)) == evs.map_values(|e: PlayerEvent| event_shape(e)),
    decreases evs.len(),
{
    if evs.len() > 0 {
        lemma_events_shapes(evs.drop_last());
        assert(as_inputs(evs).drop_last() =~= as_inputs(evs.drop_last()));
        assert(as_inputs(evs).last() == WatchInput::Event(evs.last()));
        assert(evs.map_values(|e: PlayerEvent| event_shape(e)) =~= evs.drop_last().map_values(|e: PlayerEvent| event_shape(e)) + seq![event_shape(evs.last())]);
    } else {
        assert(as_inputs(evs) =~= Seq::<WatchInput>::empty());
        assert(evs.map_values(|e: PlayerEvent| event_shape(e)) =~= Seq::<WatchShape>::empty());
    }
}

/// The order of what the watcher sends for one followed player: first its
/// track, then whether it plays, then a message for each of its events in
/// the order they came, and last a stop once its events end, before anything
/// about the next player.
pub proof fn law_watch_order(md: Metadata, playing: bool, evs: Seq<PlayerEvent>)
    ensures
        ({
            let out = inputs_shapes(seq![WatchInput::Found { metadata: Some(md), playing: playing }] + as_inputs(evs) + seq![WatchInput::EventsEnded]);
            &&& out == seq![WatchShape::TrackChanged(track_of(md)), WatchShape::Status(playing)]
                + evs.map_values(|e: PlayerEvent| event_shape(e)) + seq![WatchShape::Stopped]
            &&& out[0] == WatchShape::TrackChanged(track_of(md))
            &&& out[1] == WatchShape::Status(playing)
            &&& out.last() == WatchShape::Stopped
        }),
{
    let f = seq![WatchInput::Found { metadata: Some(md), playing: playing }];
    let e = seq![WatchInput::EventsEnded];
    lemma_inputs_shapes_append(f + as_inputs(evs), e);
    lemma_inputs_shapes_append(f, as_inputs(evs));
    lemma_events_shapes(evs);
    assert(inputs_shapes(Seq::<WatchInput>::empty()) =~= Seq::<WatchShape>::empty());
    assert(f.drop_last() =~= Seq::<WatchInput>::empty());
    assert(inputs_shapes(f.drop_last()) =~= Seq::<WatchShape>::empty());
    assert(inputs_shapes(f) =~= input_shapes(f.last()));
    assert(e.drop_last() =~= Seq::<WatchInput>::empty());
    assert(inputs_shapes(e.drop_last()) =~= Seq::<WatchShape>::empty());
    assert(inputs_shapes(e) =~= input_shapes(e.last()));
}

fn same_text(a: &str, b: &str) -> (r: bool)
    ensures
        r == (a@ == b@),
{
    let n = a.unicode_len();
    if n != b.unicode_len() {
        return false;
    }
    let mut k: usize = 0;
    while k < n
        invariant
            n == a@.len(),
            n == b@.len(),
            k <= n,
            forall|i: int| 0 <= i < k ==> a@[i] == b@[i],
        decreases n - k,
    {
        if a.get_char(k) != b.get_char(k) {
            return false;
        }
        k = k + 1;
    }
    assert(a@ =~= b@);
    true
}

/// The messages for a click on the tray icon (`clicked`) or another tray
/// event: a click toggles the window; every event is passed on.
pub fn messages_for_tray_event(clicked: bool) -> (v: Vec<Message>)
    ensures
        if clicked {
            v@.len() == 2 && v@[0] is ToggleWindow && v@[1] is TrayEvent
        } else {
            v@.len() == 1 && v@[0] is TrayEvent
        },
{
    let mut v: Vec<Message> = Vec::new();
    if clicked {
        v.push(Message::ToggleWindow);
    }
    v.push(Message::TrayEvent);
    v
}

/// The messages for the tray menu entry `id`: "show_hide" toggles the
/// window, "quit" quits; every menu event is passed on.
pub fn messages_for_menu_item(id: &str) -> (v: Vec<Message>)
    ensures
        if id@ == "show_hide"@ {
            v@.len() == 2 && v@[0] is ToggleWindow && v@[1] is TrayMenuEvent
        } else if id@ == "quit"@ {
            v@.len() == 2 && v@[0] is Quit && v@[1] is TrayMenuEvent
        } else {
            v@.len() == 1 && v@[0] is TrayMenuEvent
        },
{
    let mut v: Vec<Message> = Vec::new();
    if same_text(id, "show_hide") {
        v.push(Message::ToggleWindow);
    } else if same_text(id, "quit") {
        v.push(Message::Quit);
    }
    v.push(Message::TrayMenuEvent);
    v
}

/// The entries that are not empty, in order.
pub open spec fn non_empty(fs: Seq<Seq<char>>) -> Seq<Seq<char>>
    decreases fs.len(),
{
    if fs.len() == 0 {
        Seq::empty()
    } else if fs.last().len() > 0 {
        non_empty(fs.drop_last()).push(fs.last())
    } else {
        non_empty(fs.drop_last())
    }
}

/// The ignore patterns handed to the player watcher: the entries of the
/// ignore list as written, in order, without the empty ones.
pub fn watched_patterns(names: &Vec<String>) -> (r: Vec<String>)
    ensures
        strings_view(r@) == non_empty(strings_view(names@)),
{
    let ghost v = strings_view(names@);
    let mut r: Vec<String> = Vec::new();
    let mut k: usize = 0;
    assert(strings_view(r@) =~= non_empty(v.subrange(0, 0)));
    while k < names.len()
        invariant
            v == strings_view(names@),
            k <= names@.len(),
            strings_view(r@) == non_empty(v.subrange(0, k as int)),
        decreases names@.len() - k,
    {
        let ghost pre = v.subrange(0, k as int);
        let ghost next = v.subrange(0, k + 1);
        assert(next.drop_last() =~= pre);
        assert(next.last() == names@[k as int]@);
        if names[k].as_str().unicode_len() > 0 {
            r.push(names[k].clone());
            assert(strings_view(r@) =~= non_empty(pre).push(names@[k as int]@));
        }
        k = k + 1;
    }
    assert(v.subrange(0, names@.len() as int) =~= v);
    r
}

proof fn lemma_non_empty_members(v: Seq<Seq<char>>)
    ensures
        forall|k: int| 0 <= k < non_empty(v).len() ==> (#[trigger] non_empty(v)[k]).len() > 0 && v.contains(non_empty(v)[k]),
        forall|j: int| 0 <= j < v.len() && (#[trigger] v[j]).len() > 0 ==> non_empty(v).contains(v[j]),
    decreases v.len(),
{
    if v.len() > 0 {
        let d = v.drop_last();
        lemma_non_empty_members(d);
        let n = non_empty(v);
        let nd = non_empty(d);
        assert forall|k: int| 0 <= k < n.len() implies (#[trigger] n[k]).len() > 0 && v.contains(n[k]) by {
            if k < nd.len() {
                assert(n[k] == nd[k]);
                let j = choose|j: int| 0 <= j < d.len() && d[j] == nd[k];
                assert(v[j] == d[j]);
            } else {
                assert(n[k] == v.last());
                assert(v[v.len() - 1] == v.last());
            }
        }
        assert forall|j: int| 0 <= j < v.len() && (#[trigger] v[j]).len() > 0 implies n.contains(v[j]) by {
            if j < d.len() {
                assert(d[j] == v[j]);
                let k = choose|k: int| 0 <= k < nd.len() && nd[k] == d[j];
                assert(n[k] == nd[k]);
            } else {
                assert(n[n.len() - 1] == v.last());
            }
        }
    }
}

/// Handing the watcher the non-empty entries changes no decision: a player
/// name (never empty) is ignored by them exactly when it is ignored by the
/// whole list.
pub proof fn law_watched_patterns_ignore_the_same(v: Seq<Seq<char>>, name: Seq<char>)
    requires
        name.len() > 0,
    ensures
        ignored_by(non_empty(v), name) <==> ignored_by(v, name),
{
    lemma_non_empty_members(v);
    let n = non_empty(v);
    if ignored_by(n, name) {
        let k = choose|k: int| 0 <= k < n.len() && glob_match(#[trigger] n[k], name);
        let j = choose|j: int| 0 <= j < v.len() && v[j] == n[k];
        assert(glob_match(v[j], name));
    }
    if ignored_by(v, name) {
        let j = choose|j: int| 0 <= j < v.len() && glob_match(#[trigger] v[j], name);
        if v[j].len() == 0 {
            assert(!glob_from(v[j], name, 0, 0));
        }
        let k = choose|k: int| 0 <= k < n.len() && n[k] == v[j];
        assert(glob_match(n[k], name));
    }
}

} // verus!
