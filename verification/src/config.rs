//! The configuration file's model, its defaults and where it is kept.
use vstd::prelude::*;
use vstd::string::*;

verus! {

broadcast use vstd::string::group_string_axioms;

/// Last.fm credentials and the session obtained from them.
#[derive(Debug, Clone)]
pub struct LastFmConfig {
    pub api_key: String,
    pub api_secret: String,
    pub session_key: Option<String>,
    pub username: Option<String>,
}

/// The five colours of the window.
#[derive(Debug, Clone)]
pub struct ColorScheme {
    pub base: String,
    pub slightly_lighter: String,
    pub accent_grey: String,
    pub bright: String,
    pub text: String,
}

/// The screen corner the window is attached to.
#[derive(Debug, Clone, Copy, PartialEq, Eq, Structural)]
pub enum Anchor {
    TopLeft,
    TopRight,
    BottomLeft,
    BottomRight,
}

/// Where the window stands: a corner and the distances from its two edges.
#[derive(Debug, Clone, Copy, PartialEq, Eq, Structural)]
pub struct Position {
    pub anchor: Anchor,
    pub x: i32,
    pub y: i32,
}

/// Look of the window.
#[derive(Debug, Clone)]
pub struct UiConfig {
    pub color_scheme: ColorScheme,
    pub position: Position,
    pub show_notifications: bool,
}

/// Scrobbling behaviour.
#[derive(Debug, Clone)]
pub struct GeneralConfig {
    pub scrobble_enabled: bool,
    pub poll_interval_secs: u64,
    pub ignored_players: Vec<String>,
    /// Scrobble a track only once Last.fm has confirmed that it knows it.
    pub scrobble_sanity_check: bool,
}

/// The whole configuration file.
#[derive(Debug, Clone)]
pub struct Config {
    pub lastfm: LastFmConfig,
    pub ui: UiConfig,
    pub general: GeneralConfig,
}

pub ghost struct LastFmConfigView {
    pub api_key: Seq<char>,
    pub api_secret: Seq<char>,
    pub session_key: Option<Seq<char>>,
    pub username: Option<Seq<char>>,
}

pub ghost struct ColorSchemeView {
    pub base: Seq<char>,
    pub slightly_lighter: Seq<char>,
    pub accent_grey: Seq<char>,
    pub bright: Seq<char>,
    pub text: Seq<char>,
}

pub ghost struct UiConfigView {
    pub color_scheme: ColorSchemeView,
    pub position: Position,
    pub show_notifications: bool,
}

pub ghost struct GeneralConfigView {
    pub scrobble_enabled: bool,
    pub poll_interval_secs: u64,
    pub ignored_players: Seq<Seq<char>>,
    pub scrobble_sanity_check: bool,
}

pub ghost struct ConfigView {
    pub lastfm: LastFmConfigView,
    pub ui: UiConfigView,
    pub general: GeneralConfigView,
}

pub open spec fn opt_str_view(o: Option<String>) -> Option<Seq<char>> {
    match o {
        Some(s) => Some(s@),
        None => None,
    }
}

pub open spec fn strings_view(v: Seq<String>) -> Seq<Seq<char>> {
    v.map_values(|s: String| s@)
}

impl View for LastFmConfig {
    type V = LastFmConfigView;

    open spec fn view(&self) -> LastFmConfigView {
        LastFmConfigView {
            api_key: self.api_key@,
            api_secret: self.api_secret@,
            session_key: opt_str_view(self.session_key),
            username: opt_str_view(self.username),
        }
    }
}

impl View for ColorScheme {
    type V = ColorSchemeView;

    open spec fn view(&self) -> ColorSchemeView {
        ColorSchemeView {
            base: self.base@,
            slightly_lighter: self.slightly_lighter@,
            accent_grey: self.accent_grey@,
            bright: self.bright@,
            text: self.text@,
        }
    }
}

impl View for UiConfig {
    type V = UiConfigView;

    open spec fn view(&self) -> UiConfigView {
        UiConfigView {
            color_scheme: self.color_scheme@,
            position: self.position,
            show_notifications: self.show_notifications,
        }
    }
}

impl View for GeneralConfig {
    type V = GeneralConfigView;

    open spec fn view(&self) -> GeneralConfigView {
        GeneralConfigView {
            scrobble_enabled: self.scrobble_enabled,
            poll_interval_secs: self.poll_interval_secs,
            ignored_players: strings_view(self.ignored_players@),
            scrobble_sanity_check: self.scrobble_sanity_check,
        }
    }
}

impl View for Config {
    type V = ConfigView;

    open spec fn view(&self) -> ConfigView {
        ConfigView { lastfm: self.lastfm@, ui: self.ui@, general: self.general@ }
    }
}

/// The Catppuccin-like colours used when the file names none.
pub open spec fn default_color_scheme() -> ColorSchemeView {
    ColorSchemeView {
        base: "#11111b"@,
        slightly_lighter: "#1e1e2e"@,
        accent_grey: "#6C7086"@,
        bright: "#BAC2DE"@,
        text: "#cdd6f4"@,
    }
}

/// Bottom right corner, twenty pixels from both edges.
pub open spec fn default_position() -> Position {
    Position { anchor: Anchor::BottomRight, x: 20, y: 20 }
}

/// The configuration used when no file exists or the file does not parse.
pub open spec fn default_config() -> ConfigView {
    ConfigView {
        lastfm: LastFmConfigView {
            api_key: Seq::empty(),
            api_secret: Seq::empty(),
            session_key: None,
            username: None,
        },
        ui: UiConfigView {
            color_scheme: default_color_scheme(),
            position: default_position(),
            show_notifications: true,
        },
        general: GeneralConfigView {
            scrobble_enabled: true,
            poll_interval_secs: 5,
            ignored_players: Seq::empty(),
            scrobble_sanity_check: false,
        },
    }
}

impl Default for ColorScheme {
    fn default() -> (c: Self)
        ensures
            c@ == default_color_scheme(),
    {
        ColorScheme {
            base: "#11111b".to_string(),
            slightly_lighter: "#1e1e2e".to_string(),
            accent_grey: "#6C7086".to_string(),
            bright: "#BAC2DE".to_string(),
            text: "#cdd6f4".to_string(),
        }
    }
}

impl Default for Position {
    fn default() -> (p: Self)
        ensures
            p == default_position(),
    {
        Position { anchor: Anchor::BottomRight, x: 20, y: 20 }
    }
}

impl Default for Config {
    fn default() -> (c: Self)
        ensures
            c@ == default_config(),
    {
        let ignored: Vec<String> = Vec::new();
        let c = Config {
            lastfm: LastFmConfig {
                api_key: String::new(),
                api_secret: String::new(),
                session_key: None,
                username: None,
            },
            ui: UiConfig {
                color_scheme: ColorScheme::default(),
                position: Position::default(),
                show_notifications: true,
            },
            general: GeneralConfig {
                scrobble_enabled: true,
                poll_interval_secs: 5,
                ignored_players: ignored,
                scrobble_sanity_check: false,
            },
        };
        assert(strings_view(c.general.ignored_players@) =~= Seq::<Seq<char>>::empty());
        c
    }
}

/// `base` with the relative component `comp` appended, as a path join does on
/// Unix: a `/` goes between them unless `base` is empty or already ends in one.
pub open spec fn join_component(base: Seq<char>, comp: Seq<char>) -> Seq<char> {
    if base.len() == 0 || base.last() == '/' {
        base + comp
    } else {
        base + seq!['/'] + comp
    }
}

/// The configuration file inside the user's configuration directory `dir`,
/// or inside the working directory where there is none.
pub open spec fn config_file_in(dir: Option<Seq<char>>) -> Seq<char> {
    let base = match dir {
        Some(d) => d,
        None => seq!['.'],
    };
    join_component(join_component(base, "traac"@), "config.toml"@)
}

/// The configuration that loading yields: what the file parsed to, or the
/// defaults where there was no file or it did not parse.
pub open spec fn loaded_config(parsed: Option<ConfigView>) -> ConfigView {
    match parsed {
        Some(c) => c,
        None => default_config(),
    }
}

/// Calls `dirs::config_dir` and turns the path into text (bytes that are not
/// UTF-8 are replaced, as `to_string_lossy` does). The directory comes from the
/// environment of the process, so nothing is stated of it.
#[verifier::external_body]
fn user_config_dir() -> Option<String> {
    match dirs::config_dir() {
        Some(p) => Some(p.to_string_lossy().into_owned()),
        None => None,
    }
}

fn join_path(base: String, comp: &str) -> (r: String)
    ensures
        r@ == join_component(base@, comp@),
{
    let n = base.as_str().unicode_len();
    if n == 0 {
        base.concat(comp)
    } else {
        let last = base.as_str().get_char(n - 1);
        if last == '/' {
            base.concat(comp)
        } else {
            let with_sep = base.concat("/");
            proof {
                reveal_strlit("/");
            }
            with_sep.concat(comp)
        }
    }
}

impl Config {
    /// Where the configuration file lives when the user's configuration
    /// directory is `dir` (`None`: there is none).
    pub fn config_path_in(dir: Option<String>) -> (r: String)
        ensures
            r@ == config_file_in(opt_str_view(dir)),
    {
        let base = match dir {
            Some(d) => d,
            None => String::from_str("."),
        };
        proof {
            reveal_strlit(".");
            assert("."@ =~= seq!['.']);
        }
        let app_dir = join_path(base, "traac");
        join_path(app_dir, "config.toml")
    }

    /// The configuration file of this user: `traac/config.toml` inside the
    /// configuration directory of the platform, or inside `.` where there is none.
    pub fn config_path() -> (r: String)
        ensures
            exists|dir: Option<Seq<char>>| r@ == config_file_in(dir),
    {
        let dir = user_config_dir();
        let r = Self::config_path_in(dir);
        assert(r@ == config_file_in(opt_str_view(dir)));
        r
    }

    /// The configuration that loading settles on once the file was read:
    /// what it parsed to, else the defaults.
    pub fn resolve_loaded(parsed: Option<Config>) -> (c: Config)
        ensures
            c@ == loaded_config(match parsed { Some(p) => Some(p@), None => None }),
    {
        match parsed {
            Some(p) => p,
            None => Config::default(),
        }
    }

    /// Both Last.fm credentials are filled in.
    pub fn has_credentials(&self) -> (b: bool)
        ensures
            b == (self.lastfm.api_key@.len() > 0 && self.lastfm.api_secret@.len() > 0),
    {
        self.lastfm.api_key.as_str().unicode_len() > 0 && self.lastfm.api_secret.as_str().unicode_len() > 0
    }
}

} // verus!
