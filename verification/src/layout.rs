//! Where the window is placed on the screen.
use vstd::prelude::*;
use vstd::string::*;
use crate::config::{Anchor, Config, Position};

verus! {

/// The screen edges the window is attached to.
#[derive(Debug, Clone, Copy, PartialEq, Eq, Structural)]
pub struct Edges {
    pub top: bool,
    pub bottom: bool,
    pub left: bool,
    pub right: bool,
}

pub open spec fn is_top(a: Anchor) -> bool {
    a == Anchor::TopLeft || a == Anchor::TopRight
}

pub open spec fn is_left(a: Anchor) -> bool {
    a == Anchor::TopLeft || a == Anchor::BottomLeft
}

/// The two edges that meet in the corner `anchor`.
pub fn layer_anchor(anchor: Anchor) -> (e: Edges)
    ensures
        e.top == is_top(anchor),
        e.bottom == !is_top(anchor),
        e.left == is_left(anchor),
        e.right == !is_left(anchor),
{
    match anchor {
        Anchor::TopLeft => Edges { top: true, bottom: false, left: true, right: false },
        Anchor::TopRight => Edges { top: true, bottom: false, left: false, right: true },
        Anchor::BottomLeft => Edges { top: false, bottom: true, left: true, right: false },
        Anchor::BottomRight => Edges { top: false, bottom: true, left: false, right: true },
    }
}

/// The margins of the window in the layer shell's order (top, right,
/// bottom, left): `y` on the anchored vertical edge, `x` on the anchored
/// horizontal edge, zero on the two other edges.
pub open spec fn margin_of(p: Position) -> (i32, i32, i32, i32) {
    (
        if is_top(p.anchor) { p.y } else { 0 },
        if is_left(p.anchor) { 0 } else { p.x },
        if is_top(p.anchor) { 0 } else { p.y },
        if is_left(p.anchor) { p.x } else { 0 },
    )
}

/// The margins (top, right, bottom, left) of the window for `position`.
pub fn layer_margin(position: Position) -> (m: (i32, i32, i32, i32))
    ensures
        m == margin_of(position),
{
    match position.anchor {
        Anchor::TopLeft => (position.y, 0, 0, position.x),
        Anchor::TopRight => (position.y, position.x, 0, 0),
        Anchor::BottomLeft => (0, 0, position.y, position.x),
        Anchor::BottomRight => (0, position.x, position.y, 0),
    }
}

/// The first, minimal window: a title line in the configured corner.
pub struct TraacApp {
    pub config: Config,
}

impl TraacApp {
    /// The window for a loaded configuration.
    pub fn new(config: Config) -> (app: TraacApp)
        ensures
            app.config == config,
    {
        TraacApp { config }
    }

    /// The window title.
    pub fn title(&self) -> (t: String)
        ensures
            t@ == "traac"@,
    {
        String::from_str("traac")
    }

    /// The line the window shows.
    pub fn heading(&self) -> (t: String)
        ensures
            t@ == "traac - last.fm scrobbler"@,
    {
        String::from_str("traac - last.fm scrobbler")
    }

    /// The corner the window is attached to.
    pub fn corner(&self) -> (a: Anchor)
        ensures
            a == self.config.ui.position.anchor,
    {
        self.config.ui.position.anchor
    }

    /// The layer-shell namespace and output name of the window.
    pub fn namespace(&self) -> (n: String)
        ensures
            n@ == "traac"@,
    {
        String::from_str("traac")
    }

    /// Whether the window reserves an exclusive zone on the screen: it does not.
    pub fn exclusive_zone(&self) -> (z: bool)
        ensures
            z == false,
    {
        false
    }

    /// The window size in pixels, as (width, height).
    pub fn size(&self) -> (s: (u32, u32))
        ensures
            s == (300u32, 100u32),
    {
        (300, 100)
    }

    /// The window's distance from the two edges of its corner, as (x, y).
    pub fn offset(&self) -> (o: (i32, i32))
        ensures
            o == (self.config.ui.position.x, self.config.ui.position.y),
    {
        (self.config.ui.position.x, self.config.ui.position.y)
    }
}

} // verus!
