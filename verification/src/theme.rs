use vstd::prelude::*;

verus! {

use vstd::string::*;
use crate::Error;

/// An RGB color with 8-bit channels.
#[derive(Clone, Copy, Debug, PartialEq, Eq, Structural)]
pub struct Rgb {
    pub r: u8,
    pub g: u8,
    pub b: u8,
}

/// A terminal color theme: a background color, a foreground color and the 16
/// explicit ANSI palette entries. Indices 16-255 are derived on demand by
/// `color` (6x6x6 color cube plus a 24-step grayscale ramp).
///
/// Invariant (`wf`): the palette holds exactly 16 entries. Every constructor
/// of the library establishes it.
#[derive(Clone, Debug, PartialEq)]
pub struct Theme {
    pub background: Rgb,
    pub foreground: Rgb,
    pub palette: Vec<Rgb>,
}

pub open spec fn is_hex_digit(c: char) -> bool {
    ('0' as int <= c as int && c as int <= '9' as int)
    || ('a' as int <= c as int && c as int <= 'f' as int)
    || ('A' as int <= c as int && c as int <= 'F' as int)
}

pub open spec fn hex_digit_val(c: char) -> int {
    if '0' as int <= c as int && c as int <= '9' as int {
        c as int - '0' as int
    } else if 'a' as int <= c as int && c as int <= 'f' as int {
        c as int - 'a' as int + 10
    } else {
        c as int - 'A' as int + 10
    }
}

/// The value of one hexadecimal digit, or `None` if `c` is not one.
fn hex_digit(c: char) -> (r: Option<u8>)
    ensures
        r == if is_hex_digit(c) { Some(hex_digit_val(c) as u8) } else { None::<u8> },
{
    let u = c as u32;
    if 48 <= u && u <= 57 {
        Some((u - 48) as u8)
    } else if 97 <= u && u <= 102 {
        Some((u - 97 + 10) as u8)
    } else if 65 <= u && u <= 70 {
        Some((u - 65 + 10) as u8)
    } else {
        None
    }
}

/// A valid hex triplet: exactly six hexadecimal digits.
pub open spec fn triplet_ok(t: Seq<char>) -> bool {
    t.len() == 6 && (forall|i: int| 0 <= i < 6 ==> is_hex_digit(#[trigger] t[i]))
}

pub open spec fn hex_byte(t: Seq<char>, i: int) -> u8 {
    (hex_digit_val(t[i]) * 16 + hex_digit_val(t[i + 1])) as u8
}

/// The color a valid hex triplet denotes.
pub open spec fn triplet_rgb(t: Seq<char>) -> Rgb {
    Rgb { r: hex_byte(t, 0), g: hex_byte(t, 2), b: hex_byte(t, 4) }
}

/// Parses six hexadecimal digits into a color.
pub(crate) fn parse_hex_triplet(t: &Vec<char>) -> (r: Result<Rgb, Error>)
    ensures
        triplet_ok(t@) ==> r == Ok::<Rgb, Error>(triplet_rgb(t@)),
        !triplet_ok(t@) ==> r == Err::<Rgb, Error>(Error::InvalidColorFormat),
{
    if t.len() != 6 {
        return Err(Error::InvalidColorFormat);
    }
    let mut bytes: [u8; 3] = [0, 0, 0];
    let mut k: usize = 0;
    while k < 3
        invariant
            k <= 3,
            t@.len() == 6,
            forall|i: int| 0 <= i < k ==> is_hex_digit(#[trigger] t@[2 * i])
                && is_hex_digit(t@[2 * i + 1]),
            forall|i: int| 0 <= i < k ==> #[trigger] bytes[i] == hex_byte(t@, 2 * i),
        decreases 3 - k,
    {
        let hi = match hex_digit(t[2 * k]) {
            Some(d) => d,
            None => { return Err(Error::InvalidColorFormat); },
        };
        let lo = match hex_digit(t[2 * k + 1]) {
            Some(d) => d,
            None => { return Err(Error::InvalidColorFormat); },
        };
        bytes[k] = hi * 16 + lo;
        k = k + 1;
    }
    assert(forall|i: int| 0 <= i < 6 ==> is_hex_digit(#[trigger] t@[i])) by {
        assert forall|i: int| 0 <= i < 6 implies is_hex_digit(#[trigger] t@[i]) by {
            let j = i / 2;
            assert(0 <= j < 3);
            if i % 2 == 0 {
                assert(i == 2 * j);
                assert(is_hex_digit(t@[2 * j]));
            } else {
                assert(i == 2 * j + 1);
                assert(is_hex_digit(t@[2 * j]) && is_hex_digit(t@[2 * j + 1]));
            }
        }
    }
    Ok(Rgb { r: bytes[0], g: bytes[1], b: bytes[2] })
}

/// One step of the comma-separated scan: fold the finished segment `seg`
/// into the colors accumulated so far. Empty segments are skipped; a
/// malformed segment poisons the whole scan.
pub open spec fn flush_segment(acc: Option<Seq<Rgb>>, seg: Seq<char>) -> Option<Seq<Rgb>> {
    match acc {
        None => None,
        Some(cs) => if seg.len() == 0 {
            Some(cs)
        } else if triplet_ok(seg) {
            Some(cs.push(triplet_rgb(seg)))
        } else {
            None
        },
    }
}

/// Scans `s` left to right, splitting on commas, skipping empty segments and
/// parsing every other segment as a hex triplet. `None` means some segment
/// was not a hex triplet.
pub open spec fn scan_colors(s: Seq<char>, seg: Seq<char>, acc: Option<Seq<Rgb>>) -> Option<
    Seq<Rgb>,
>
    decreases s.len(),
{
    if s.len() == 0 {
        flush_segment(acc, seg)
    } else if s[0] == ',' {
        scan_colors(s.drop_first(), Seq::empty(), flush_segment(acc, seg))
    } else {
        scan_colors(s.drop_first(), seg.push(s[0]), acc)
    }
}

/// The colors of a comma-separated list of hex triplets, or `None` if some
/// non-empty segment is not a hex triplet.
pub open spec fn theme_colors(s: Seq<char>) -> Option<Seq<Rgb>> {
    scan_colors(s, Seq::empty(), Some(Seq::empty()))
}

proof fn lemma_scan_none(s: Seq<char>, seg: Seq<char>)
    ensures
        scan_colors(s, seg, None) is None,
    decreases s.len(),
{
    if s.len() != 0 {
        if s[0] == ',' {
            lemma_scan_none(s.drop_first(), Seq::empty());
        } else {
            lemma_scan_none(s.drop_first(), seg.push(s[0]));
        }
    }
}

/// What a successful parse promises: `t` is well formed, its background and
/// foreground are the first two colors, and the palette is the remaining
/// colors cycled to fill 16 slots.
pub open spec fn theme_matches(t: Theme, cs: Seq<Rgb>) -> bool {
    &&& t.wf()
    &&& (cs.len() == 10 || cs.len() == 18)
    &&& t.background == cs[0]
    &&& t.foreground == cs[1]
    &&& forall|k: int| 0 <= k < 16 ==> t.palette@[k] == cs[2 + (k % (cs.len() - 2))]
}

/// What `Theme::from_str` promises of its result for input `s`.
pub open spec fn parse_outcome(s: Seq<char>, r: Result<Theme, Error>) -> bool {
    match r {
        Ok(t) => theme_colors(s) is Some && theme_matches(t, theme_colors(s).unwrap()),
        Err(e) => {
            ||| (e == Error::InvalidColorFormat && theme_colors(s) is None)
            ||| (e == Error::InvalidTheme && theme_colors(s) is Some && theme_colors(
                s,
            ).unwrap().len() != 10 && theme_colors(s).unwrap().len() != 18)
        },
    }
}

impl Theme {
    pub open spec fn wf(&self) -> bool {
        self.palette@.len() == 16
    }

    /// Parses a comma-separated list of 6-digit hex triplets into a theme.
    ///
    /// Exactly 10 or 18 triplets are accepted: background, foreground, then
    /// 8 or 16 ANSI colors (8 are replicated to fill the 16 palette slots).
    /// Empty segments are skipped. A malformed triplet is
    /// `InvalidColorFormat`; any other triplet count is `InvalidTheme`.
    #[verifier::loop_isolation(false)]
    pub fn from_str(s: &str) -> (r: Result<Theme, Error>)
        ensures
            parse_outcome(s@, r),
    {
        let n = s.unicode_len();
        let mut colors: Vec<Rgb> = Vec::new();
        let mut seg: Vec<char> = Vec::new();
        let mut i: usize = 0;
        assert(s@.subrange(0, n as int) =~= s@);
        while i < n
            invariant
                i <= n,
                scan_colors(s@.subrange(i as int, n as int), seg@, Some(colors@))
                    == theme_colors(s@),
            decreases n - i,
        {
            let ghost pre = s@.subrange(i as int, n as int);
            let c = s.get_char(i);
            assert(pre.drop_first() =~= s@.subrange(i + 1, n as int));
            assert(pre[0] == c);
            if c == ',' {
                if seg.len() > 0 {
                    match parse_hex_triplet(&seg) {
                        Ok(col) => { colors.push(col); },
                        Err(e) => {
                            proof {
                                lemma_scan_none(pre.drop_first(), Seq::empty());
                            }
                            return Err(e);
                        },
                    }
                    seg = Vec::new();
                } else {
                    seg = Vec::new();
                }
            } else {
                seg.push(c);
            }
            i = i + 1;
        }
        assert(s@.subrange(n as int, n as int) =~= Seq::<char>::empty());
        if seg.len() > 0 {
            match parse_hex_triplet(&seg) {
                Ok(col) => { colors.push(col); },
                Err(e) => { return Err(e); },
            }
        }
        if colors.len() != 10 && colors.len() != 18 {
            return Err(Error::InvalidTheme);
        }
        let background = colors[0];
        let foreground = colors[1];
        let cycle = colors.len() - 2;
        let mut palette: Vec<Rgb> = Vec::new();
        let mut k: usize = 0;
        while k < 16
            invariant
                k <= 16,
                palette@.len() == k,
                cycle == colors@.len() - 2,
                forall|j: int| 0 <= j < k ==> palette@[j] == colors@[2 + (j % cycle as int)],
            decreases 16 - k,
        {
            palette.push(colors[2 + k % cycle]);
            k = k + 1;
        }
        Ok(Theme { background, foreground, palette })
    }

    /// The color of palette index `c`: indices 0-15 come from the explicit
    /// palette, 16-231 from the 6x6x6 color cube, 232-255 from the grayscale
    /// ramp.
    pub fn color(&self, color: u8) -> (r: Rgb)
        requires
            self.wf(),
        ensures
            r == self.color_spec(color),
    {
        if color < 16 {
            self.palette[color as usize]
        } else if color < 232 {
            let n = color - 16;
            let mut r = ((n / 36) % 6) * 40;
            let mut g = ((n / 6) % 6) * 40;
            let mut b = (n % 6) * 40;
            if r > 0 {
                r = r + 55;
            }
            if g > 0 {
                g = g + 55;
            }
            if b > 0 {
                b = b + 55;
            }
            Rgb { r, g, b }
        } else {
            let v = 8 + 10 * (color - 232);
            Rgb { r: v, g: v, b: v }
        }
    }

    pub open spec fn color_spec(&self, c: u8) -> Rgb {
        if c < 16 {
            self.palette@[c as int]
        } else if c < 232 {
            Rgb {
                r: cube_channel(((c - 16) as int / 36) % 6),
                g: cube_channel(((c - 16) as int / 6) % 6),
                b: cube_channel((c - 16) as int % 6),
            }
        } else {
            Rgb { r: gray_level(c), g: gray_level(c), b: gray_level(c) }
        }
    }
}

/// Law (theme parse round trip): a definition of exactly 18 valid
/// triplets parses to a theme whose background, foreground and 16 palette
/// entries are those triplets, in order and unchanged.
pub proof fn lemma_full_theme_roundtrip(t: Theme, cs: Seq<Rgb>)
    requires
        theme_matches(t, cs),
        cs.len() == 18,
    ensures
        t.background == cs[0],
        t.foreground == cs[1],
        forall|k: int| 0 <= k < 16 ==> t.palette@[k] == cs[2 + k],
{
    assert forall|k: int| 0 <= k < 16 implies t.palette@[k] == cs[2 + k] by {
        assert(k % 16int == k);
        assert(t.palette@[k] == cs[2 + (k % (cs.len() - 2))]);
    }
}

/// One channel of the 6x6x6 color cube: level 0 is 0, levels 1-5 are
/// 95, 135, 175, 215, 255.
pub open spec fn cube_channel(level: int) -> u8 {
    if level > 0 {
        (level * 40 + 55) as u8
    } else {
        0u8
    }
}

/// The gray of ramp index `c` (232-255): 8, 18, ..., 238.
pub open spec fn gray_level(c: u8) -> u8 {
    (8 + 10 * (c - 232)) as u8
}

} // verus!
