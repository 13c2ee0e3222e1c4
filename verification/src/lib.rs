pub mod asciicast;
pub mod events;
pub mod renderer;
pub mod vt;
pub mod theme;

use vstd::prelude::*;

verus! {

use vstd::string::*;

/// The errors the library can report.
///
/// `UnsupportedFormat`: no known recording schema matches the header line.
/// `InvalidEvent`: one malformed event record (the reader aborts on the first one).
/// `InvalidTheme`: a theme definition with the wrong number of entries.
/// `InvalidColorFormat`: a malformed hex color inside a theme definition.
/// `InvalidTerminalSize`: a recording that declares zero columns or zero rows.
#[derive(Clone, Copy, Debug, PartialEq, Eq, Structural)]
pub enum Error {
    UnsupportedFormat,
    InvalidEvent,
    InvalidTheme,
    InvalidColorFormat,
    InvalidTerminalSize,
}

impl Error {
    /// A human-readable description of the error.
    pub fn message(&self) -> (r: String)
        ensures
            r@ == self.message_spec(),
    {
        match self {
            Error::UnsupportedFormat => String::from_str("not a v1, v2, v3 asciicast file"),
            Error::InvalidEvent => String::from_str("asciicast parse error"),
            Error::InvalidTheme => String::from_str("expected 10 or 18 hex triplets"),
            Error::InvalidColorFormat => String::from_str("not a hex triplet"),
            Error::InvalidTerminalSize => String::from_str("the recording has invalid terminal size"),
        }
    }

    pub open spec fn message_spec(&self) -> Seq<char> {
        match self {
            Error::UnsupportedFormat => "not a v1, v2, v3 asciicast file"@,
            Error::InvalidEvent => "asciicast parse error"@,
            Error::InvalidTheme => "expected 10 or 18 hex triplets"@,
            Error::InvalidColorFormat => "not a hex triplet"@,
            Error::InvalidTerminalSize => "the recording has invalid terminal size"@,
        }
    }
}

pub const DEFAULT_FONT_FAMILY: &'static str =
    "JetBrains Mono,Fira Code,SF Mono,Menlo,Consolas,DejaVu Sans Mono,Liberation Mono";

pub const DEFAULT_FONT_SIZE: usize = 14;

pub const DEFAULT_FPS_CAP: u8 = 30;

/// Microseconds.
pub const DEFAULT_LAST_FRAME_DURATION: u64 = 3_000_000;

/// Hundredths of the font size.
pub const DEFAULT_LINE_HEIGHT: u64 = 140;

pub const DEFAULT_NO_LOOP: bool = false;

/// Millionths: 1 000 000 plays at recording speed.
pub const DEFAULT_SPEED: u64 = 1_000_000;

/// Microseconds.
pub const DEFAULT_IDLE_TIME_LIMIT: u64 = 5_000_000;

/// The rendering backend to use.
#[derive(Clone, Copy, Debug, PartialEq, Eq, Structural)]
pub enum Renderer {
    Resvg,
    Fontdue,
}

impl Default for Renderer {
    fn default() -> (r: Renderer)
        ensures
            r == Renderer::Resvg,
    {
        Renderer::Resvg
    }
}

/// The color theme selection: a named built-in theme, a custom
/// comma-separated definition, or a theme embedded in the recording.
#[derive(Clone, Debug)]
pub enum Theme {
    Asciinema,
    Dracula,
    GithubDark,
    GithubLight,
    Kanagawa,
    KanagawaDragon,
    KanagawaLight,
    Monokai,
    Nord,
    SolarizedDark,
    SolarizedLight,
    GruvboxDark,
    Custom(String),
    Embedded(crate::theme::Theme),
}

impl Default for Theme {
    fn default() -> (r: Theme)
        ensures
            r is Dracula,
    {
        Theme::Dracula
    }
}

impl Theme {
    /// The hex-triplet definition of a built-in theme.
    pub open spec fn builtin_spec(&self) -> Seq<char> {
        match self {
            Theme::Asciinema => "121314,cccccc,000000,dd3c69,4ebf22,ddaf3c,26b0d7,b954e1,54e1b9,d9d9d9,4d4d4d,dd3c69,4ebf22,ddaf3c,26b0d7,b954e1,54e1b9,ffffff"@,
            Theme::Dracula => "282a36,f8f8f2,21222c,ff5555,50fa7b,f1fa8c,bd93f9,ff79c6,8be9fd,f8f8f2,6272a4,ff6e6e,69ff94,ffffa5,d6acff,ff92df,a4ffff,ffffff"@,
            Theme::GithubDark => "171b21,eceff4,0e1116,f97583,a2fca2,fabb72,7db4f9,c4a0f5,1f6feb,eceff4,6a737d,bf5a64,7abf7a,bf8f57,608bbf,997dbf,195cbf,b9bbbf"@,
            Theme::GithubLight => "eceff4,171b21,0e1116,f97583,a2fca2,fabb72,7db4f9,c4a0f5,1f6feb,eceff4,6a737d,bf5a64,7abf7a,bf8f57,608bbf,997dbf,195cbf,b9bbbf"@,
            Theme::Kanagawa => "1f1f28,dcd7ba,16161d,c34043,76946a,c0a36e,7e9cd8,957fb8,6a9589,c8c093,727169,e82424,98bb6c,e6c384,7fb4ca,938aa9,7aa89f,dcd7ba"@,
            Theme::KanagawaDragon => "181616,c5c9c5,0d0c0c,c4746e,8a9a7b,c4b28a,8ba4b0,a292a3,8ea4a2,c8c093,a6a69c,e46876,87a987,e6c384,7fb4ca,938aa9,7aa89f,c5c9c5"@,
            Theme::KanagawaLight => "f2ecbc,545464,1f1f28,c84053,6f894e,77713f,4d699b,b35b79,597b75,545464,8a8980,d7474b,6e915f,836f4a,6693bf,624c83,5e857a,43436c"@,
            Theme::Monokai => "272822,f8f8f2,272822,f92672,a6e22e,f4bf75,66d9ef,ae81ff,a1efe4,f8f8f2,75715e,f92672,a6e22e,f4bf75,66d9ef,ae81ff,a1efe4,f9f8f5"@,
            Theme::Nord => "2e3440,eceff4,3b4252,bf616a,a3be8c,ebcb8b,81a1c1,b48ead,88c0d0,eceff4,3b4252,bf616a,a3be8c,ebcb8b,81a1c1,b48ead,88c0d0,eceff4"@,
            Theme::SolarizedDark => "002b36,839496,073642,dc322f,859900,b58900,268bd2,d33682,2aa198,eee8d5,002b36,cb4b16,586e75,657b83,839496,6c71c4,93a1a1,fdf6e3"@,
            Theme::SolarizedLight => "fdf6e3,657b83,073642,dc322f,859900,b58900,268bd2,d33682,2aa198,eee8d5,002b36,cb4b16,586e75,657c83,839496,6c71c4,93a1a1,fdf6e3"@,
            Theme::GruvboxDark => "fbf1c7,282828,282828,cc241d,98971a,d79921,458588,b16286,689d6a,a89984,7c6f64,fb4934,b8bb26,fabd2f,83a598,d3869b,8ec07c,fbf1c7"@,
            Theme::Custom(s) => s@,
            Theme::Embedded(_) => Seq::empty(),
        }
    }

    /// Resolves the selection into a concrete theme: a built-in or custom
    /// definition is parsed; an embedded theme is returned as it is.
    pub fn resolve(self) -> (r: Result<crate::theme::Theme, Error>)
        requires
            self matches Theme::Embedded(t) ==> t.wf(),
        ensures
            (self matches Theme::Embedded(t) ==> r == Ok::<crate::theme::Theme, Error>(t)),
            (!(self is Embedded) ==> crate::theme::parse_outcome(self.builtin_spec(), r)),
            (r matches Ok(t) ==> t.wf()),
    {
        match self {
            Theme::Asciinema => crate::theme::Theme::from_str("121314,cccccc,000000,dd3c69,4ebf22,ddaf3c,26b0d7,b954e1,54e1b9,d9d9d9,4d4d4d,dd3c69,4ebf22,ddaf3c,26b0d7,b954e1,54e1b9,ffffff"),
            Theme::Dracula => crate::theme::Theme::from_str("282a36,f8f8f2,21222c,ff5555,50fa7b,f1fa8c,bd93f9,ff79c6,8be9fd,f8f8f2,6272a4,ff6e6e,69ff94,ffffa5,d6acff,ff92df,a4ffff,ffffff"),
            Theme::GithubDark => crate::theme::Theme::from_str("171b21,eceff4,0e1116,f97583,a2fca2,fabb72,7db4f9,c4a0f5,1f6feb,eceff4,6a737d,bf5a64,7abf7a,bf8f57,608bbf,997dbf,195cbf,b9bbbf"),
            Theme::GithubLight => crate::theme::Theme::from_str("eceff4,171b21,0e1116,f97583,a2fca2,fabb72,7db4f9,c4a0f5,1f6feb,eceff4,6a737d,bf5a64,7abf7a,bf8f57,608bbf,997dbf,195cbf,b9bbbf"),
            Theme::Kanagawa => crate::theme::Theme::from_str("1f1f28,dcd7ba,16161d,c34043,76946a,c0a36e,7e9cd8,957fb8,6a9589,c8c093,727169,e82424,98bb6c,e6c384,7fb4ca,938aa9,7aa89f,dcd7ba"),
            Theme::KanagawaDragon => crate::theme::Theme::from_str("181616,c5c9c5,0d0c0c,c4746e,8a9a7b,c4b28a,8ba4b0,a292a3,8ea4a2,c8c093,a6a69c,e46876,87a987,e6c384,7fb4ca,938aa9,7aa89f,c5c9c5"),
            Theme::KanagawaLight => crate::theme::Theme::from_str("f2ecbc,545464,1f1f28,c84053,6f894e,77713f,4d699b,b35b79,597b75,545464,8a8980,d7474b,6e915f,836f4a,6693bf,624c83,5e857a,43436c"),
            Theme::Monokai => crate::theme::Theme::from_str("272822,f8f8f2,272822,f92672,a6e22e,f4bf75,66d9ef,ae81ff,a1efe4,f8f8f2,75715e,f92672,a6e22e,f4bf75,66d9ef,ae81ff,a1efe4,f9f8f5"),
            Theme::Nord => crate::theme::Theme::from_str("2e3440,eceff4,3b4252,bf616a,a3be8c,ebcb8b,81a1c1,b48ead,88c0d0,eceff4,3b4252,bf616a,a3be8c,ebcb8b,81a1c1,b48ead,88c0d0,eceff4"),
            Theme::SolarizedDark => crate::theme::Theme::from_str("002b36,839496,073642,dc322f,859900,b58900,268bd2,d33682,2aa198,eee8d5,002b36,cb4b16,586e75,657b83,839496,6c71c4,93a1a1,fdf6e3"),
            Theme::SolarizedLight => crate::theme::Theme::from_str("fdf6e3,657b83,073642,dc322f,859900,b58900,268bd2,d33682,2aa198,eee8d5,002b36,cb4b16,586e75,657c83,839496,6c71c4,93a1a1,fdf6e3"),
            Theme::GruvboxDark => crate::theme::Theme::from_str("fbf1c7,282828,282828,cc241d,98971a,d79921,458588,b16286,689d6a,a89984,7c6f64,fb4934,b8bb26,fabd2f,83a598,d3869b,8ec07c,fbf1c7"),
            Theme::Custom(t) => crate::theme::Theme::from_str(t.as_str()),
            Theme::Embedded(t) => Ok(t),
        }
    }

    /// The selection's display name.
    pub open spec fn name_spec(&self) -> Seq<char> {
        match self {
            Theme::Asciinema => "asciinema"@,
            Theme::Dracula => "dracula"@,
            Theme::GithubDark => "githubdark"@,
            Theme::GithubLight => "githublight"@,
            Theme::Kanagawa => "kanagawa"@,
            Theme::KanagawaDragon => "kanagawadragon"@,
            Theme::KanagawaLight => "kanagawalight"@,
            Theme::Monokai => "monokai"@,
            Theme::Nord => "nord"@,
            Theme::SolarizedDark => "solarizeddark"@,
            Theme::SolarizedLight => "solarizedlight"@,
            Theme::GruvboxDark => "gruvboxdark"@,
            Theme::Custom(_) => "custom"@,
            Theme::Embedded(_) => "embedded"@,
        }
    }

    /// The selection's display name, for logging.
    pub fn name(&self) -> (r: String)
        ensures
            r@ == self.name_spec(),
    {
        match self {
            Theme::Asciinema => String::from_str("asciinema"),
            Theme::Dracula => String::from_str("dracula"),
            Theme::GithubDark => String::from_str("githubdark"),
            Theme::GithubLight => String::from_str("githublight"),
            Theme::Kanagawa => String::from_str("kanagawa"),
            Theme::KanagawaDragon => String::from_str("kanagawadragon"),
            Theme::KanagawaLight => String::from_str("kanagawalight"),
            Theme::Monokai => String::from_str("monokai"),
            Theme::Nord => String::from_str("nord"),
            Theme::SolarizedDark => String::from_str("solarizeddark"),
            Theme::SolarizedLight => String::from_str("solarizedlight"),
            Theme::GruvboxDark => String::from_str("gruvboxdark"),
            Theme::Custom(_) => String::from_str("custom"),
            Theme::Embedded(_) => String::from_str("embedded"),
        }
    }
}

/// The configuration of a whole conversion run. Times are in microseconds,
/// the playback speed in millionths, the line height in hundredths of the
/// font size.
pub struct Config {
    pub cols: Option<usize>,
    pub font_dirs: Vec<String>,
    pub font_family: String,
    pub font_size: usize,
    pub fps_cap: u8,
    pub idle_time_limit: Option<u64>,
    pub last_frame_duration: u64,
    pub line_height: u64,
    pub no_loop: bool,
    pub renderer: Renderer,
    pub rows: Option<usize>,
    pub speed: u64,
    pub theme: Option<Theme>,
    pub show_progress_bar: bool,
}

impl Default for Config {
    fn default() -> (r: Config)
        ensures
            r.cols is None,
            r.font_dirs@.len() == 0,
            r.font_family@ == DEFAULT_FONT_FAMILY@,
            r.font_size == DEFAULT_FONT_SIZE,
            r.fps_cap == DEFAULT_FPS_CAP,
            r.idle_time_limit is None,
            r.last_frame_duration == DEFAULT_LAST_FRAME_DURATION,
            r.line_height == DEFAULT_LINE_HEIGHT,
            r.no_loop == DEFAULT_NO_LOOP,
            r.renderer == Renderer::Resvg,
            r.rows is None,
            r.speed == DEFAULT_SPEED,
            r.theme is None,
            r.show_progress_bar,
    {
        Config {
            cols: None,
            font_dirs: Vec::new(),
            font_family: String::from_str(DEFAULT_FONT_FAMILY),
            font_size: DEFAULT_FONT_SIZE,
            fps_cap: DEFAULT_FPS_CAP,
            idle_time_limit: None,
            last_frame_duration: DEFAULT_LAST_FRAME_DURATION,
            line_height: DEFAULT_LINE_HEIGHT,
            no_loop: DEFAULT_NO_LOOP,
            renderer: Renderer::Resvg,
            rows: None,
            speed: DEFAULT_SPEED,
            theme: None,
            show_progress_bar: true,
        }
    }
}

/// The terminal size of the run: a recording that declares zero columns or
/// rows is rejected; otherwise the configured overrides win over the
/// recording's size.
pub fn terminal_size(
    header: &crate::asciicast::Header,
    cols_override: Option<usize>,
    rows_override: Option<usize>,
) -> (r: Result<(usize, usize), Error>)
    ensures
        match r {
            Ok(sz) => {
                &&& header.term_cols > 0
                &&& header.term_rows > 0
                &&& sz.0 == (match cols_override {
                    Some(c) => c,
                    None => header.term_cols as usize,
                })
                &&& sz.1 == (match rows_override {
                    Some(c) => c,
                    None => header.term_rows as usize,
                })
            },
            Err(e) => e == Error::InvalidTerminalSize && (header.term_cols == 0
                || header.term_rows == 0),
        },
{
    if header.term_cols == 0 || header.term_rows == 0 {
        return Err(Error::InvalidTerminalSize);
    }
    let cols = match cols_override {
        Some(c) => c,
        None => header.term_cols as usize,
    };
    let rows = match rows_override {
        Some(c) => c,
        None => header.term_rows as usize,
    };
    Ok((cols, rows))
}

/// The idle-time limit of the run: the configured override wins over the
/// recording's embedded limit, which wins over the default.
pub fn effective_idle_limit(config_limit: Option<u64>, header_limit: Option<u64>) -> (r: u64)
    ensures
        r == (match config_limit {
            Some(l) => l,
            None => match header_limit {
                Some(h) => h,
                None => DEFAULT_IDLE_TIME_LIMIT,
            },
        }),
{
    match config_limit {
        Some(l) => l,
        None => match header_limit {
            Some(h) => h,
            None => DEFAULT_IDLE_TIME_LIMIT,
        },
    }
}

/// The presentation timestamp handed to the encoder for frame `index`: the
/// first frame is pinned to time zero, and every timestamp is pushed back
/// by the configured last-frame duration so that the final frame stays
/// visible that long (saturating at the 64-bit range).
pub fn frame_time(index: usize, time: u64, last_frame_duration: u64) -> (r: u64)
    ensures
        r as int == {
            let base: int = if index == 0 {
                0
            } else {
                time as int
            };
            if base + last_frame_duration <= u64::MAX {
                base + last_frame_duration
            } else {
                u64::MAX as int
            }
        },
{
    let base: u64 = if index == 0 {
        0
    } else {
        time
    };
    if base <= u64::MAX - last_frame_duration {
        base + last_frame_duration
    } else {
        u64::MAX
    }
}

/// Recognizes a theme argument: a value containing a comma is a custom
/// theme definition; otherwise it must be the name of a built-in theme.
#[derive(Clone, Copy, Debug)]
pub struct ThemeValueParser;

/// What `parse_value` returns for a given argument.
pub open spec fn theme_arg_matches(s: Seq<char>, r: Option<Theme>) -> bool {
    if exists|i: int| 0 <= i < s.len() && s[i] == ',' {
        r matches Some(t) && (t matches Theme::Custom(c) && c@ == s)
    } else if s == "asciinema"@ {
        r matches Some(t) && t is Asciinema
    } else if s == "dracula"@ {
        r matches Some(t) && t is Dracula
    } else if s == "github-dark"@ {
        r matches Some(t) && t is GithubDark
    } else if s == "github-light"@ {
        r matches Some(t) && t is GithubLight
    } else if s == "kanagawa"@ {
        r matches Some(t) && t is Kanagawa
    } else if s == "kanagawa-dragon"@ {
        r matches Some(t) && t is KanagawaDragon
    } else if s == "kanagawa-light"@ {
        r matches Some(t) && t is KanagawaLight
    } else if s == "monokai"@ {
        r matches Some(t) && t is Monokai
    } else if s == "nord"@ {
        r matches Some(t) && t is Nord
    } else if s == "solarized-dark"@ {
        r matches Some(t) && t is SolarizedDark
    } else if s == "solarized-light"@ {
        r matches Some(t) && t is SolarizedLight
    } else if s == "gruvbox-dark"@ {
        r matches Some(t) && t is GruvboxDark
    } else {
        r is None
    }
}

/// Whether two strings hold the same characters.
#[verifier::loop_isolation(false)]
fn str_eq(a: &str, b: &str) -> (r: bool)
    ensures
        r == (a@ == b@),
{
    let n = a.unicode_len();
    if n != b.unicode_len() {
        assert(a@.len() != b@.len());
        return false;
    }
    let mut i: usize = 0;
    while i < n
        invariant
            i <= n,
            n == a@.len() == b@.len(),
            forall|j: int| 0 <= j < i ==> a@[j] == b@[j],
        decreases n - i,
    {
        if a.get_char(i) != b.get_char(i) {
            return false;
        }
        i = i + 1;
    }
    assert(a@ =~= b@);
    true
}

#[verifier::loop_isolation(false)]
fn has_comma(s: &str) -> (r: bool)
    ensures
        r == exists|i: int| 0 <= i < s@.len() && s@[i] == ',',
{
    let n = s.unicode_len();
    let mut i: usize = 0;
    while i < n
        invariant
            i <= n,
            n == s@.len(),
            forall|j: int| 0 <= j < i ==> s@[j] != ',',
        decreases n - i,
    {
        if s.get_char(i) == ',' {
            return true;
        }
        i = i + 1;
    }
    false
}

impl ThemeValueParser {
    /// Parses one theme argument.
    pub fn parse_value(&self, s: &str) -> (r: Option<Theme>)
        ensures
            theme_arg_matches(s@, r),
    {
        if has_comma(s) {
            return Some(Theme::Custom(String::from_str(s)));
        }
        if str_eq(s, "asciinema") {
            Some(Theme::Asciinema)
        } else if str_eq(s, "dracula") {
            Some(Theme::Dracula)
        } else if str_eq(s, "github-dark") {
            Some(Theme::GithubDark)
        } else if str_eq(s, "github-light") {
            Some(Theme::GithubLight)
        } else if str_eq(s, "kanagawa") {
            Some(Theme::Kanagawa)
        } else if str_eq(s, "kanagawa-dragon") {
            Some(Theme::KanagawaDragon)
        } else if str_eq(s, "kanagawa-light") {
            Some(Theme::KanagawaLight)
        } else if str_eq(s, "monokai") {
            Some(Theme::Monokai)
        } else if str_eq(s, "nord") {
            Some(Theme::Nord)
        } else if str_eq(s, "solarized-dark") {
            Some(Theme::SolarizedDark)
        } else if str_eq(s, "solarized-light") {
            Some(Theme::SolarizedLight)
        } else if str_eq(s, "gruvbox-dark") {
            Some(Theme::GruvboxDark)
        } else {
            None
        }
    }

    /// The built-in theme names an argument may carry, plus "custom".
    pub fn possible_values(&self) -> (r: Vec<String>)
        ensures
            r@.len() == 13,
            r@[0]@ == "asciinema"@,
            r@[1]@ == "dracula"@,
            r@[2]@ == "github-dark"@,
            r@[3]@ == "github-light"@,
            r@[4]@ == "kanagawa"@,
            r@[5]@ == "kanagawa-dragon"@,
            r@[6]@ == "kanagawa-light"@,
            r@[7]@ == "monokai"@,
            r@[8]@ == "nord"@,
            r@[9]@ == "solarized-dark"@,
            r@[10]@ == "solarized-light"@,
            r@[11]@ == "gruvbox-dark"@,
            r@[12]@ == "custom"@,
    {
        let mut out: Vec<String> = Vec::new();
        out.push(String::from_str("asciinema"));
        out.push(String::from_str("dracula"));
        out.push(String::from_str("github-dark"));
        out.push(String::from_str("github-light"));
        out.push(String::from_str("kanagawa"));
        out.push(String::from_str("kanagawa-dragon"));
        out.push(String::from_str("kanagawa-light"));
        out.push(String::from_str("monokai"));
        out.push(String::from_str("nord"));
        out.push(String::from_str("solarized-dark"));
        out.push(String::from_str("solarized-light"));
        out.push(String::from_str("gruvbox-dark"));
        out.push(String::from_str("custom"));
        out
    }
}

} // verus!
