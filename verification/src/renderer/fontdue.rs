use vstd::prelude::*;

verus! {

use vstd::arithmetic::div_mod::{lemma_div_is_ordered, lemma_div_multiples_vanish};
use vstd::arithmetic::mul::lemma_mul_inequality;
use crate::renderer::{Settings, text_attrs, text_attrs_spec, color_to_rgb, color_to_rgb_spec};
use crate::theme::{Rgb, Theme};
use crate::vt::{PenColor, TermCell, TermLine};
use std::collections::HashMap;

/// An opaque RGBA pixel.
#[derive(Clone, Copy, Debug, PartialEq, Eq, Structural)]
pub struct Rgba {
    pub r: u8,
    pub g: u8,
    pub b: u8,
    pub a: u8,
}

/// `c` as an opaque pixel.
pub open spec fn opaque(c: Rgb) -> Rgba {
    Rgba { r: c.r, g: c.g, b: c.b, a: 255 }
}

pub open spec fn blend_channel(fg: u8, bg: u8, ratio: u8) -> u8 {
    (bg * (255 - ratio) / 255 + fg * ratio / 255) as u8
}

/// The linear interpolation the compositor uses: each channel is
/// `bg*(255-ratio)/255 + fg*ratio/255`, and the result is opaque.
pub open spec fn mix_spec(fg: Rgba, bg: Rgba, ratio: u8) -> Rgba {
    Rgba {
        r: blend_channel(fg.r, bg.r, ratio),
        g: blend_channel(fg.g, bg.g, ratio),
        b: blend_channel(fg.b, bg.b, ratio),
        a: 255,
    }
}

proof fn lemma_blend_fits(fg: u8, bg: u8, ratio: u8)
    ensures
        0 <= bg * (255 - ratio) / 255 + fg * ratio / 255 <= 255,
{
    lemma_mul_inequality(bg as int, 255, (255 - ratio) as int);
    lemma_div_is_ordered(bg as int * (255 - ratio), 255 * (255 - ratio), 255);
    lemma_div_multiples_vanish((255 - ratio) as int, 255);
    lemma_mul_inequality(fg as int, 255, ratio as int);
    lemma_div_is_ordered(fg as int * ratio, 255 * ratio as int, 255);
    lemma_div_multiples_vanish(ratio as int, 255);
}

/// Blends a foreground over a background with the given coverage ratio
/// (0 leaves the background, 255 paints pure foreground).
pub fn mix_colors(fg: Rgba, bg: Rgba, ratio: u8) -> (r: Rgba)
    ensures
        r == mix_spec(fg, bg, ratio),
{
    proof {
        lemma_blend_fits(fg.r, bg.r, ratio);
        lemma_blend_fits(fg.g, bg.g, ratio);
        lemma_blend_fits(fg.b, bg.b, ratio);
    }
    let t = ratio as u16;
    Rgba {
        r: ((bg.r as u16) * (255 - t) / 255 + (fg.r as u16) * t / 255) as u8,
        g: ((bg.g as u16) * (255 - t) / 255 + (fg.g as u16) * t / 255) as u8,
        b: ((bg.b as u16) * (255 - t) / 255 + (fg.b as u16) * t / 255) as u8,
        a: 255,
    }
}

/// The placement metrics of one rasterized glyph, in pixels. `xmin`/`ymin`
/// are the offsets of the bitmap's bottom-left corner from the pen
/// position, as the font backend reports them.
#[derive(Clone, Copy, Debug)]
pub struct GlyphMetrics {
    pub width: usize,
    pub height: usize,
    pub xmin: i32,
    pub ymin: i32,
}

/// One rasterized glyph: metrics and a row-major coverage bitmap with one
/// byte per pixel.
#[derive(Clone, Debug)]
pub struct Glyph {
    pub metrics: GlyphMetrics,
    pub bitmap: Vec<u8>,
}

impl Glyph {
    /// The bitmap covers exactly `width x height` pixels and the glyph is
    /// of a size a font could plausibly produce (machine bound).
    pub open spec fn wf(&self) -> bool {
        &&& self.bitmap@.len() == self.metrics.width * self.metrics.height
        &&& self.metrics.width <= 16384
        &&& self.metrics.height <= 16384
        &&& -16384 <= self.metrics.xmin <= 16384
        &&& -16384 <= self.metrics.ymin <= 16384
    }

    /// Validates raw rasterization output into a well-formed glyph.
    pub fn new(width: usize, height: usize, xmin: i32, ymin: i32, bitmap: Vec<u8>) -> (r: Option<
        Glyph,
    >)
        ensures
            match r {
                Some(g) => g.wf() && g.metrics.width == width && g.metrics.height == height
                    && g.metrics.xmin == xmin && g.metrics.ymin == ymin && g.bitmap@ == bitmap@,
                None => width > 16384 || height > 16384 || xmin < -16384 || xmin > 16384
                    || ymin < -16384 || ymin > 16384 || bitmap@.len() != width * height,
            },
    {
        if width > 16384 || height > 16384 {
            return None;
        }
        if xmin < -16384 || xmin > 16384 || ymin < -16384 || ymin > 16384 {
            return None;
        }
        let w64 = width as u64;
        let h64 = height as u64;
        proof {
            lemma_mul_upper(w64 as int, h64 as int, 16384, 16384);
        }
        if (bitmap.len() as u64) != w64 * h64 {
            return None;
        }
        Some(Glyph { metrics: GlyphMetrics { width, height, xmin, ymin }, bitmap })
    }
}

/// The key of the glyph cache: the character together with the bold and
/// italic styling it was rasterized under.
pub open spec fn glyph_key_spec(ch: char, bold: bool, italic: bool) -> u64 {
    (ch as int + (if bold {
        0x1_0000_0000int
    } else {
        0int
    }) + (if italic {
        0x2_0000_0000int
    } else {
        0int
    })) as u64
}

/// Computes the cache key of a character variant.
pub fn glyph_key(ch: char, bold: bool, italic: bool) -> (r: u64)
    ensures
        r == glyph_key_spec(ch, bold, italic),
{
    let base = ch as u64;
    let b: u64 = if bold {
        0x1_0000_0000
    } else {
        0
    };
    let i: u64 = if italic {
        0x2_0000_0000
    } else {
        0
    };
    base + b + i
}

/// Half the coverage for faint text, the coverage itself otherwise.
pub open spec fn faded(ratio: u8, faint: bool) -> u8 {
    if faint {
        (ratio / 2) as u8
    } else {
        ratio
    }
}

/// Rounds a length in hundredths of a pixel to whole pixels.
pub open spec fn round_px(x: int) -> int {
    (x + 50) / 100
}

pub(crate) proof fn lemma_mul_upper(a: int, b: int, ca: int, cb: int)
    by (nonlinear_arith)
    requires
        0 <= a <= ca,
        0 <= b <= cb,
    ensures
        a * b <= ca * cb,
{
}

proof fn lemma_idx_coords(idx: int, pw: int, ph: int)
    requires
        pw > 0,
        0 <= idx < pw * ph,
    ensures
        0 <= idx / pw < ph,
        0 <= idx % pw < pw,
        (idx / pw) * pw + (idx % pw) == idx,
{
    vstd::arithmetic::div_mod::lemma_fundamental_div_mod(idx, pw);
    vstd::arithmetic::div_mod::lemma_mod_bound(idx, pw);
    assert((idx / pw) * pw + (idx % pw) == idx) by (nonlinear_arith)
        requires
            idx == pw * (idx / pw) + (idx % pw),
    ;
    assert(idx / pw < ph) by (nonlinear_arith)
        requires
            pw > 0,
            idx < pw * ph,
            idx == pw * (idx / pw) + (idx % pw),
            0 <= idx % pw,
    ;
    assert(idx / pw >= 0) by (nonlinear_arith)
        requires
            pw > 0,
            idx >= 0,
            idx == pw * (idx / pw) + (idx % pw),
            idx % pw < pw,
    ;
}

/// `buf` with the rectangle `[x_l, x_r) x [y_t, y_b)` of a `pw`-wide
/// row-major pixel grid painted with `c`.
pub open spec fn filled_rect(
    buf: Seq<Rgba>,
    pw: int,
    x_l: int,
    x_r: int,
    y_t: int,
    y_b: int,
    c: Rgba,
) -> Seq<Rgba> {
    Seq::new(
        buf.len(),
        |idx: int|
            if pw > 0 && y_t <= idx / pw < y_b && x_l <= idx % pw < x_r {
                c
            } else {
                buf[idx]
            },
    )
}

/// `buf` with `glyph` blended in at offset `(x_off, y_off)` of a `pw`-wide
/// row-major pixel grid.
pub open spec fn blitted_glyph(
    buf: Seq<Rgba>,
    pw: int,
    glyph: Glyph,
    x_off: int,
    y_off: int,
    fg: Rgba,
    faint: bool,
) -> Seq<Rgba> {
    Seq::new(
        buf.len(),
        |idx: int|
            if pw > 0 && y_off <= idx / pw < y_off + glyph.metrics.height && x_off <= idx % pw
                < x_off + glyph.metrics.width {
                mix_spec(
                    fg,
                    buf[idx],
                    faded(
                        glyph.bitmap@[(idx / pw - y_off) * glyph.metrics.width + (idx % pw
                            - x_off)],
                        faint,
                    ),
                )
            } else {
                buf[idx]
            },
    )
}

proof fn lemma_fill_to_seq(
    b0: Seq<Rgba>,
    b1: Seq<Rgba>,
    pw: int,
    ph: int,
    x_l: int,
    x_r: int,
    y_t: int,
    y_b: int,
    c: Rgba,
)
    requires
        b0.len() == pw * ph,
        b1.len() == pw * ph,
        pw >= 0,
        ph >= 0,
        forall|y: int, x: int|
            0 <= y < ph && 0 <= x < pw ==> #[trigger] b1[y * pw + x] == (if y_t <= y < y_b && x_l
                <= x < x_r {
                c
            } else {
                b0[y * pw + x]
            }),
    ensures
        b1 == filled_rect(b0, pw, x_l, x_r, y_t, y_b, c),
{
    if pw > 0 {
        assert forall|idx: int| 0 <= idx < b1.len() implies b1[idx] == filled_rect(
            b0,
            pw,
            x_l,
            x_r,
            y_t,
            y_b,
            c,
        )[idx] by {
            lemma_idx_coords(idx, pw, ph);
            let y = idx / pw;
            let x = idx % pw;
            assert(b1[y * pw + x] == (if y_t <= y < y_b && x_l <= x < x_r {
                c
            } else {
                b0[y * pw + x]
            }));
        }
    }
    assert(b1 =~= filled_rect(b0, pw, x_l, x_r, y_t, y_b, c));
}

proof fn lemma_blit_to_seq(
    b0: Seq<Rgba>,
    b1: Seq<Rgba>,
    pw: int,
    ph: int,
    glyph: Glyph,
    x_off: int,
    y_off: int,
    fg: Rgba,
    faint: bool,
)
    requires
        b0.len() == pw * ph,
        b1.len() == pw * ph,
        pw >= 0,
        ph >= 0,
        forall|y: int, x: int|
            0 <= y < ph && 0 <= x < pw ==> #[trigger] b1[y * pw + x] == (if y_off <= y < y_off
                + glyph.metrics.height && x_off <= x < x_off + glyph.metrics.width {
                mix_spec(
                    fg,
                    b0[y * pw + x],
                    faded(
                        glyph.bitmap@[(y - y_off) * glyph.metrics.width + (x - x_off)],
                        faint,
                    ),
                )
            } else {
                b0[y * pw + x]
            }),
    ensures
        b1 == blitted_glyph(b0, pw, glyph, x_off, y_off, fg, faint),
{
    if pw > 0 {
        assert forall|idx: int| 0 <= idx < b1.len() implies b1[idx] == blitted_glyph(
            b0,
            pw,
            glyph,
            x_off,
            y_off,
            fg,
            faint,
        )[idx] by {
            lemma_idx_coords(idx, pw, ph);
            let y = idx / pw;
            let x = idx % pw;
            assert(b1[y * pw + x] == (if y_off <= y < y_off + glyph.metrics.height && x_off <= x
                < x_off + glyph.metrics.width {
                mix_spec(
                    fg,
                    b0[y * pw + x],
                    faded(
                        glyph.bitmap@[(y - y_off) * glyph.metrics.width + (x - x_off)],
                        faint,
                    ),
                )
            } else {
                b0[y * pw + x]
            }));
        }
    }
    assert(b1 =~= blitted_glyph(b0, pw, glyph, x_off, y_off, fg, faint));
}

proof fn lemma_row_major_bound(y: int, x: int, pw: int, ph: int)
    by (nonlinear_arith)
    requires
        0 <= y < ph,
        0 <= x < pw,
    ensures
        0 <= y * pw + x < ph * pw,
{
}

proof fn lemma_row_major_injective(y1: int, x1: int, y2: int, x2: int, pw: int)
    by (nonlinear_arith)
    requires
        0 <= x1 < pw,
        0 <= x2 < pw,
        0 <= y1,
        0 <= y2,
        y1 * pw + x1 == y2 * pw + x2,
    ensures
        y1 == y2 && x1 == x2,
{
}

/// Paints the rectangle `[x_l, x_r) x [y_t, y_b)` of a `pw x ph` row-major
/// pixel buffer with `c`, clipping at the buffer's edges; every other pixel
/// is untouched.
#[verifier::loop_isolation(false)]
pub fn fill_rect(
    buf: &mut Vec<Rgba>,
    pw: usize,
    ph: usize,
    x_l: usize,
    x_r: usize,
    y_t: usize,
    y_b: usize,
    c: Rgba,
)
    requires
        old(buf)@.len() == pw * ph,
        pw * ph <= usize::MAX,
    ensures
        final(buf)@.len() == pw * ph,
        forall|y: int, x: int|
            0 <= y < ph && 0 <= x < pw ==> #[trigger] final(buf)@[y * pw + x] == (if y_t <= y < y_b && x_l
                <= x < x_r {
                c
            } else {
                old(buf)@[y * pw + x]
            }),
{
    let y_end: usize = if y_b < ph {
        y_b
    } else {
        ph
    };
    let x_end: usize = if x_r < pw {
        x_r
    } else {
        pw
    };
    let mut y: usize = y_t;
    while y < y_end
        invariant
            y_t <= y,
            y <= y_end || y == y_t,
            buf@.len() == pw * ph,
            forall|yy: int, xx: int|
                0 <= yy < ph && 0 <= xx < pw ==> #[trigger] buf@[yy * pw + xx] == (if y_t <= yy < y && x_l
                    <= xx < x_r {
                    c
                } else {
                    old(buf)@[yy * pw + xx]
                }),
        decreases y_end - y,
    {
        let mut x: usize = x_l;
        while x < x_end
            invariant
                x_l <= x,
                x <= x_end || x == x_l,
                y < y_end,
                buf@.len() == pw * ph,
                forall|yy: int, xx: int|
                    0 <= yy < ph && 0 <= xx < pw ==> #[trigger] buf@[yy * pw + xx] == (if (y_t <= yy < y
                        && x_l <= xx < x_r) || (yy == y && x_l <= xx < x) {
                        c
                    } else {
                        old(buf)@[yy * pw + xx]
                    }),
            decreases x_end - x,
        {
            proof {
                lemma_row_major_bound(y as int, x as int, pw as int, ph as int);
                assert(y * pw + x < ph * pw);
                assert(ph * pw == pw * ph) by (nonlinear_arith);
                assert(y * pw + x <= usize::MAX);
            }
            let idx = y * pw + x;
            buf.set(idx, c);
            proof {
                assert forall|yy: int, xx: int|
                    0 <= yy < ph && 0 <= xx < pw implies #[trigger] buf@[yy * pw + xx] == (if (y_t
                    <= yy < y && x_l <= xx < x_r) || (yy == y && x_l <= xx < x + 1) {
                    c
                } else {
                    old(buf)@[yy * pw + xx]
                }) by {
                    lemma_row_major_bound(yy, xx, pw as int, ph as int);
                    if !(yy == y && xx == x) {
                        if yy * pw + xx == y * pw + x {
                            lemma_row_major_injective(yy, xx, y as int, x as int, pw as int);
                        }
                    }
                }
            }
            x = x + 1;
        }
        y = y + 1;
    }
}

/// Blits one glyph at the given offset: every screen pixel covered by the
/// bitmap is blended between its previous value and `fg` by the bitmap's
/// coverage (halved for faint text); every other pixel is untouched.
#[verifier::loop_isolation(false)]
pub fn blit_glyph(
    buf: &mut Vec<Rgba>,
    pw: usize,
    ph: usize,
    glyph: &Glyph,
    x_off: i64,
    y_off: i64,
    fg: Rgba,
    faint: bool,
)
    requires
        old(buf)@.len() == pw * ph,
        pw * ph <= usize::MAX,
        glyph.wf(),
        pw <= 0x80_0000,
        ph <= 0x400_0000,
        -0x10_0000 <= x_off <= 0x10_0000_0000,
        -0x10_0000 <= y_off <= 0x10_0000_0000,
    ensures
        final(buf)@.len() == pw * ph,
        forall|y: int, x: int|
            0 <= y < ph && 0 <= x < pw ==> #[trigger] final(buf)@[y * pw + x] == (if y_off <= y < y_off
                + glyph.metrics.height && x_off <= x < x_off + glyph.metrics.width {
                mix_spec(
                    fg,
                    old(buf)@[y * pw + x],
                    faded(
                        glyph.bitmap@[(y - y_off) * glyph.metrics.width + (x - x_off)],
                        faint,
                    ),
                )
            } else {
                old(buf)@[y * pw + x]
            }),
{
    let gw = glyph.metrics.width;
    let gh = glyph.metrics.height;
    let mut by: usize = 0;
    while by < gh
        invariant
            by <= gh,
            buf@.len() == pw * ph,
            forall|y: int, x: int|
                0 <= y < ph && 0 <= x < pw ==> #[trigger] buf@[y * pw + x] == (if y_off <= y < y_off + by
                    && x_off <= x < x_off + gw {
                    mix_spec(
                        fg,
                        old(buf)@[y * pw + x],
                        faded(glyph.bitmap@[(y - y_off) * gw + (x - x_off)], faint),
                    )
                } else {
                    old(buf)@[y * pw + x]
                }),
        decreases gh - by,
    {
        let y = y_off + by as i64;
        if y >= 0 && y < ph as i64 {
            let mut bx: usize = 0;
            while bx < gw
                invariant
                    bx <= gw,
                    by < gh,
                    y == y_off + by,
                    0 <= y < ph,
                    buf@.len() == pw * ph,
                    forall|yy: int, x: int|
                        0 <= yy < ph && 0 <= x < pw ==> #[trigger] buf@[yy * pw + x] == (if (y_off <= yy
                            < y_off + by && x_off <= x < x_off + gw) || (yy == y && x_off <= x
                            < x_off + bx) {
                            mix_spec(
                                fg,
                                old(buf)@[yy * pw + x],
                                faded(glyph.bitmap@[(yy - y_off) * gw + (x - x_off)], faint),
                            )
                        } else {
                            old(buf)@[yy * pw + x]
                        }),
                decreases gw - bx,
            {
                let x = x_off + bx as i64;
                if x >= 0 && x < pw as i64 {
                    proof {
                        lemma_row_major_bound(by as int, bx as int, gw as int, gh as int);
                        lemma_mul_upper(gh as int, gw as int, 16384, 16384);
                        assert(gh * gw == gw * gh) by (nonlinear_arith);
                        lemma_row_major_bound(y as int, x as int, pw as int, ph as int);
                        assert(ph * pw == pw * ph) by (nonlinear_arith);
                    }
                    let mut ratio = glyph.bitmap[by * gw + bx];
                    if faint {
                        ratio = ratio / 2;
                    }
                    let idx = (y as usize) * pw + (x as usize);
                    let bg = buf[idx];
                    let mixed = mix_colors(fg, bg, ratio);
                    buf.set(idx, mixed);
                    proof {
                        assert forall|yy: int, xx: int|
                            0 <= yy < ph && 0 <= xx < pw implies #[trigger] buf@[yy * pw + xx]
                            == (if (y_off <= yy < y_off + by && x_off <= xx < x_off + gw) || (yy
                            == y && x_off <= xx < x_off + bx + 1) {
                            mix_spec(
                                fg,
                                old(buf)@[yy * pw + xx],
                                faded(glyph.bitmap@[(yy - y_off) * gw + (xx - x_off)], faint),
                            )
                        } else {
                            old(buf)@[yy * pw + xx]
                        }) by {
                            lemma_row_major_bound(yy, xx, pw as int, ph as int);
                            if !(yy == y && xx == x) {
                                if yy * pw + xx == y * pw + x {
                                    lemma_row_major_injective(
                                        yy,
                                        xx,
                                        y as int,
                                        x as int,
                                        pw as int,
                                    );
                                }
                            }
                        }
                    }
                }
                bx = bx + 1;
            }
        }
        by = by + 1;
    }
}

/// The glyph-cache backed raster compositor. All lengths that were measured
/// by the font backend are held in hundredths of a pixel (`col_width`,
/// `row_height`); pixel positions are derived from them by rounding.
pub struct FontdueRenderer {
    pub theme: Theme,
    pub pixel_width: usize,
    pub pixel_height: usize,
    pub font_size: usize,
    pub col_width: u64,
    pub row_height: u64,
    pub glyph_cache: HashMap<u64, Option<Glyph>>,
}

impl FontdueRenderer {
    /// The machine bounds every operation of the compositor relies on, and
    /// the glyph cache holding only validated glyphs.
    pub open spec fn wf(&self) -> bool {
        &&& self.theme.wf()
        &&& self.font_size <= 1024
        &&& self.col_width <= 102_400
        &&& self.row_height <= 1_024_000
        &&& self.pixel_width <= 0x80_0000
        &&& self.pixel_height <= 0x400_0000
        &&& self.pixel_width * self.pixel_height <= usize::MAX
        &&& forall|k: u64| self.glyph_cache@.contains_key(k) ==> match #[trigger] self.glyph_cache@[k] {
            Some(g) => g.wf(),
            None => true,
        }
    }

    /// Builds the compositor for a terminal of `settings.terminal_size`.
    /// `col_width` is the advance width of one column in hundredths of a
    /// pixel, as measured from the font backend at the configured font
    /// size. The pixel area adds one column of margin on each side and half
    /// a row above and below. `None` exactly when the pixel buffer would
    /// not fit in memory on this machine.
    pub fn new(settings: Settings, col_width: u64) -> (r: Option<FontdueRenderer>)
        requires
            settings.theme.wf(),
            settings.terminal_size.0 <= 4096,
            settings.terminal_size.1 <= 4096,
            settings.font_size <= 1024,
            settings.line_height <= 1000,
            col_width <= 102_400,
        ensures
            match r {
                Some(r) => {
                    &&& r.wf()
                    &&& r.theme == settings.theme
                    &&& r.font_size == settings.font_size
                    &&& r.col_width == col_width
                    &&& r.row_height == settings.font_size * settings.line_height
                    &&& r.pixel_width == round_px((settings.terminal_size.0 + 2) * col_width)
                    &&& r.pixel_height == round_px(
                        (settings.terminal_size.1 + 1) * (settings.font_size
                            * settings.line_height),
                    )
                    &&& r.glyph_cache@ == Map::<u64, Option<Glyph>>::empty()
                },
                None => round_px((settings.terminal_size.0 + 2) * col_width) * round_px(
                    (settings.terminal_size.1 + 1) * (settings.font_size * settings.line_height),
                ) > usize::MAX,
            },
    {
        let cols = settings.terminal_size.0;
        let rows = settings.terminal_size.1;
        proof {
            lemma_mul_upper(settings.font_size as int, settings.line_height as int, 1024, 1000);
        }
        let row_height: u64 = (settings.font_size as u64) * settings.line_height;
        proof {
            lemma_mul_upper(cols as int + 2, col_width as int, 4098, 102_400);
            lemma_mul_upper(rows as int + 1, row_height as int, 4097, 1_024_000);
        }
        let pw: u64 = ((cols as u64 + 2) * col_width + 50) / 100;
        let ph: u64 = ((rows as u64 + 1) * row_height + 50) / 100;
        proof {
            lemma_mul_upper(pw as int, ph as int, 0x80_0000, 0x400_0000);
        }
        if pw * ph > (usize::MAX as u64) {
            return None;
        }
        Some(
            FontdueRenderer {
                theme: settings.theme,
                pixel_width: pw as usize,
                pixel_height: ph as usize,
                font_size: settings.font_size,
                col_width,
                row_height,
                glyph_cache: HashMap::new(),
            },
        )
    }

    /// The dimensions of every rendered frame, in pixels.
    pub fn pixel_size(&self) -> (r: (usize, usize))
        ensures
            r == (self.pixel_width, self.pixel_height),
    {
        (self.pixel_width, self.pixel_height)
    }

    /// Whether a glyph outcome for this character variant is already
    /// cached (a cached miss counts as cached).
    pub fn has_glyph(&self, ch: char, bold: bool, italic: bool) -> (r: bool)
        ensures
            r == self.glyph_cache@.contains_key(glyph_key_spec(ch, bold, italic)),
    {
        proof {
            broadcast use vstd::std_specs::hash::group_hash_axioms;
        }
        self.glyph_cache.contains_key(&glyph_key(ch, bold, italic))
    }

    /// Stores the outcome of rasterizing one character variant. `primary`
    /// is the attempt under the requested styling; `plain` the retry under
    /// plain styling, consulted only when the primary attempt found
    /// nothing and the variant was styled. A double miss is cached as a
    /// definitive "no glyph".
    pub fn store_glyph(
        &mut self,
        ch: char,
        bold: bool,
        italic: bool,
        primary: Option<Glyph>,
        plain: Option<Glyph>,
    )
        requires
            old(self).wf(),
            match primary {
                Some(g) => g.wf(),
                None => true,
            },
            match plain {
                Some(g) => g.wf(),
                None => true,
            },
        ensures
            final(self).wf(),
            final(self).glyph_cache@ == old(self).glyph_cache@.insert(
                glyph_key_spec(ch, bold, italic),
                (if primary is Some {
                    primary
                } else if bold || italic {
                    plain
                } else {
                    None
                }),
            ),
            final(self).theme == old(self).theme,
            final(self).pixel_width == old(self).pixel_width,
            final(self).pixel_height == old(self).pixel_height,
            final(self).font_size == old(self).font_size,
            final(self).col_width == old(self).col_width,
            final(self).row_height == old(self).row_height,
    {
        proof {
            broadcast use vstd::std_specs::hash::group_hash_axioms;
        }
        let key = glyph_key(ch, bold, italic);
        let resolved: Option<Glyph> = match primary {
            Some(g) => Some(g),
            None => if bold || italic {
                plain
            } else {
                None
            },
        };
        self.glyph_cache.insert(key, resolved);
    }

    /// The character variants of the grid that still need a rasterization
    /// attempt: every non-space character, keyed with its cell's bold and
    /// italic attributes, that has no cached outcome yet. Every such
    /// variant of the grid is listed. The caller feeds each entry back
    /// through `store_glyph`.
    #[verifier::loop_isolation(false)]
    pub fn missing_glyphs(&self, lines: &Vec<TermLine>) -> (r: Vec<(char, bool, bool)>)
        ensures
            forall|k: int| 0 <= k < r@.len() ==> (#[trigger] r@[k]).0 != ' '
                && !self.glyph_cache@.contains_key(
                glyph_key_spec(r@[k].0, r@[k].1, r@[k].2),
            ),
            forall|i: int, j: int|
                0 <= i < lines@.len() && 0 <= j < lines@[i].cells@.len() && (
                #[trigger] lines@[i].cells@[j]).ch != ' ' && !self.glyph_cache@.contains_key(
                    glyph_key_spec(
                        lines@[i].cells@[j].ch,
                        lines@[i].cells@[j].pen.bold,
                        lines@[i].cells@[j].pen.italic,
                    ),
                ) ==> r@.contains(
                    (
                        lines@[i].cells@[j].ch,
                        lines@[i].cells@[j].pen.bold,
                        lines@[i].cells@[j].pen.italic,
                    ),
                ),
    {
        let mut out: Vec<(char, bool, bool)> = Vec::new();
        let mut i: usize = 0;
        while i < lines.len()
            invariant
                i <= lines@.len(),
                forall|k: int| 0 <= k < out@.len() ==> (#[trigger] out@[k]).0 != ' '
                    && !self.glyph_cache@.contains_key(
                    glyph_key_spec(out@[k].0, out@[k].1, out@[k].2),
                ),
                forall|a: int, b: int|
                    0 <= a < i && 0 <= b < lines@[a].cells@.len() && (
                    #[trigger] lines@[a].cells@[b]).ch != ' '
                        && !self.glyph_cache@.contains_key(
                        glyph_key_spec(
                            lines@[a].cells@[b].ch,
                            lines@[a].cells@[b].pen.bold,
                            lines@[a].cells@[b].pen.italic,
                        ),
                    ) ==> out@.contains(
                        (
                            lines@[a].cells@[b].ch,
                            lines@[a].cells@[b].pen.bold,
                            lines@[a].cells@[b].pen.italic,
                        ),
                    ),
            decreases lines@.len() - i,
        {
            let cells = &lines[i].cells;
            let mut j: usize = 0;
            while j < cells.len()
                invariant
                    j <= cells@.len(),
                    cells@ == lines@[i as int].cells@,
                    i < lines@.len(),
                    forall|k: int| 0 <= k < out@.len() ==> (#[trigger] out@[k]).0 != ' '
                        && !self.glyph_cache@.contains_key(
                        glyph_key_spec(out@[k].0, out@[k].1, out@[k].2),
                    ),
                    forall|a: int, b: int|
                        0 <= a < i && 0 <= b < lines@[a].cells@.len() && (
                        #[trigger] lines@[a].cells@[b]).ch != ' '
                            && !self.glyph_cache@.contains_key(
                            glyph_key_spec(
                                lines@[a].cells@[b].ch,
                                lines@[a].cells@[b].pen.bold,
                                lines@[a].cells@[b].pen.italic,
                            ),
                        ) ==> out@.contains(
                            (
                                lines@[a].cells@[b].ch,
                                lines@[a].cells@[b].pen.bold,
                                lines@[a].cells@[b].pen.italic,
                            ),
                        ),
                    forall|b: int|
                        0 <= b < j && (#[trigger] cells@[b]).ch != ' '
                            && !self.glyph_cache@.contains_key(
                            glyph_key_spec(cells@[b].ch, cells@[b].pen.bold, cells@[b].pen.italic),
                        ) ==> out@.contains(
                            (cells@[b].ch, cells@[b].pen.bold, cells@[b].pen.italic),
                        ),
                decreases cells@.len() - j,
            {
                let ch = cells[j].ch;
                let bold = cells[j].pen.bold;
                let italic = cells[j].pen.italic;
                let ghost out0 = out@;
                if ch != ' ' && !self.has_glyph(ch, bold, italic) {
                    out.push((ch, bold, italic));
                    assert(out@.contains((ch, bold, italic))) by {
                        assert(out@[out@.len() - 1] == (ch, bold, italic));
                    }
                }
                proof {
                    assert forall|k: int|
                        0 <= k < out0.len() && out0.contains(#[trigger] out0[k]) implies out@.contains(
                        out0[k],
                    ) by {
                        assert(out@[k] == out0[k]);
                    }
                    assert(forall|x: (char, bool, bool)| out0.contains(x) ==> out@.contains(x));
                }
                j = j + 1;
            }
            i = i + 1;
        }
        out
    }

    /// Half a row of margin above the grid, in pixels.
    pub open spec fn margin_top_spec(&self) -> int {
        (self.row_height + 100) / 200
    }

    /// The top pixel row of grid row `row`.
    pub open spec fn row_top(&self, row: int) -> int {
        self.margin_top_spec() + round_px(row * self.row_height)
    }

    /// The left pixel column of grid column `col` (one column of margin on
    /// the left).
    pub open spec fn cell_left(&self, col: int) -> int {
        round_px((col + 1) * self.col_width)
    }

    /// The pixel row of the underline within grid row `row`.
    pub open spec fn underline_row(&self, row: int) -> int {
        self.margin_top_spec() + round_px(row * self.row_height + self.font_size * 120)
    }

    /// The horizontal blit offset of a glyph at grid column `col`.
    pub open spec fn glyph_left(&self, col: int, g: Glyph) -> int {
        self.col_width as int / 100 + round_px(col * self.col_width) + g.metrics.xmin
    }

    /// The vertical blit offset of a glyph at grid row `row`.
    pub open spec fn glyph_top(&self, row: int, g: Glyph) -> int {
        self.margin_top_spec() + self.font_size - g.metrics.height + round_px(
            row * self.row_height,
        ) - g.metrics.ymin
    }

    /// The painting of one cell: its background rectangle if one resolved,
    /// its underline, then its glyph (if cached) blended by coverage.
    pub open spec fn painted_cell(
        &self,
        buf: Seq<Rgba>,
        row: int,
        col: int,
        cell: TermCell,
        cursor: Option<(usize, usize)>,
    ) -> Seq<Rgba> {
        let attrs = text_attrs_spec(cell.pen, cursor, col as usize, row as usize, self.theme);
        let pw = self.pixel_width as int;
        let x_l = self.cell_left(col);
        let x_r = self.cell_left(col + cell.width);
        let b1 = match attrs.background {
            Some(c) => filled_rect(
                buf,
                pw,
                x_l,
                x_r,
                self.row_top(row),
                self.row_top(row + 1),
                opaque(color_to_rgb_spec(c, self.theme)),
            ),
            None => buf,
        };
        let fg = opaque(
            color_to_rgb_spec(
                match attrs.foreground {
                    Some(c) => c,
                    None => PenColor::Rgb(self.theme.foreground),
                },
                self.theme,
            ),
        );
        let b2 = if attrs.underline {
            filled_rect(b1, pw, x_l, x_r, self.underline_row(row), self.underline_row(row) + 1, fg)
        } else {
            b1
        };
        if cell.ch != ' ' && self.glyph_cache@.contains_key(
            glyph_key_spec(cell.ch, attrs.bold, attrs.italic),
        ) {
            match self.glyph_cache@[glyph_key_spec(cell.ch, attrs.bold, attrs.italic)] {
                Some(g) => blitted_glyph(
                    b2,
                    pw,
                    g,
                    self.glyph_left(col, g),
                    self.glyph_top(row, g),
                    fg,
                    attrs.faint,
                ),
                None => b2,
            }
        } else {
            b2
        }
    }

    /// The painting of the cells of one row from index `j` on, the cursor
    /// column advancing by each cell's width.
    pub open spec fn painted_row(
        &self,
        buf: Seq<Rgba>,
        row: int,
        cells: Seq<TermCell>,
        j: int,
        col: int,
        cursor: Option<(usize, usize)>,
    ) -> Seq<Rgba>
        decreases cells.len() - j,
    {
        if j < 0 || j >= cells.len() {
            buf
        } else {
            self.painted_row(
                self.painted_cell(buf, row, col, cells[j], cursor),
                row,
                cells,
                j + 1,
                col + cells[j].width,
                cursor,
            )
        }
    }

    /// The painting of all rows from `row` on.
    pub open spec fn painted_rows(
        &self,
        buf: Seq<Rgba>,
        lines: Seq<TermLine>,
        row: int,
        cursor: Option<(usize, usize)>,
    ) -> Seq<Rgba>
        decreases lines.len() - row,
    {
        if row < 0 || row >= lines.len() {
            buf
        } else {
            self.painted_rows(
                self.painted_row(buf, row, lines[row].cells@, 0, 0, cursor),
                lines,
                row + 1,
                cursor,
            )
        }
    }

    /// The whole frame: the theme background, then every cell painted in
    /// row-major order.
    pub open spec fn render_spec(
        &self,
        lines: Seq<TermLine>,
        cursor: Option<(usize, usize)>,
    ) -> Seq<Rgba> {
        self.painted_rows(
            Seq::new(
                (self.pixel_width * self.pixel_height) as nat,
                |i: int| opaque(self.theme.background),
            ),
            lines,
            0,
            cursor,
        )
    }

    /// Paints one cell into the frame buffer.
    fn paint_cell(
        &self,
        buf: &mut Vec<Rgba>,
        row: usize,
        col: usize,
        cell: &TermCell,
        cursor: Option<(usize, usize)>,
    )
        requires
            self.wf(),
            old(buf)@.len() == self.pixel_width * self.pixel_height,
            row < 4096,
            col <= 1_045_000,
        ensures
            final(buf)@ == self.painted_cell(old(buf)@, row as int, col as int, *cell, cursor),
            final(buf)@.len() == old(buf)@.len(),
    {
        let pw = self.pixel_width;
        let ph = self.pixel_height;
        let margin_t: usize = ((self.row_height + 100) / 200) as usize;
        let ch = cell.ch;
        let width = cell.width as usize;
        proof {
            lemma_mul_upper(row as int, self.row_height as int, 4095, 1_024_000);
            lemma_mul_upper(row as int + 1, self.row_height as int, 4096, 1_024_000);
            lemma_mul_upper(col as int, self.col_width as int, 1_050_000, 102_400);
            lemma_mul_upper(col as int + 1, self.col_width as int, 1_050_000, 102_400);
            lemma_mul_upper(
                col as int + width as int + 1,
                self.col_width as int,
                1_050_000,
                102_400,
            );
        }
        let y_t = margin_t + (((row as u64) * self.row_height + 50) / 100) as usize;
        let y_b = margin_t + (((row as u64 + 1) * self.row_height + 50) / 100) as usize;
        let x_l = (((col as u64 + 1) * self.col_width + 50) / 100) as usize;
        let x_r = (((col as u64 + width as u64 + 1) * self.col_width + 50) / 100) as usize;
        assert(x_l as int == self.cell_left(col as int));
        assert(x_r as int == self.cell_left(col as int + width as int));
        assert(y_t as int == self.row_top(row as int));
        assert(y_b as int == self.row_top(row as int + 1));
        let attrs = text_attrs(&cell.pen, &cursor, col, row, &self.theme);
        let ghost b0 = buf@;
        if let Some(c) = attrs.background {
            let rgb = color_to_rgb(&c, &self.theme);
            fill_rect(buf, pw, ph, x_l, x_r, y_t, y_b, Rgba { r: rgb.r, g: rgb.g, b: rgb.b, a: 255 });
            proof {
                lemma_fill_to_seq(
                    b0,
                    buf@,
                    pw as int,
                    ph as int,
                    x_l as int,
                    x_r as int,
                    y_t as int,
                    y_b as int,
                    opaque(color_to_rgb_spec(c, self.theme)),
                );
            }
        }
        let ghost b1 = buf@;
        let fg_color = match attrs.foreground {
            Some(c) => c,
            None => PenColor::Rgb(self.theme.foreground),
        };
        let rgb = color_to_rgb(&fg_color, &self.theme);
        let fg = Rgba { r: rgb.r, g: rgb.g, b: rgb.b, a: 255 };
        if attrs.underline {
            let y = margin_t + (((row as u64) * self.row_height + (self.font_size as u64) * 120
                + 50) / 100) as usize;
            assert(y as int == self.underline_row(row as int));
            fill_rect(buf, pw, ph, x_l, x_r, y, y + 1, fg);
            proof {
                lemma_fill_to_seq(
                    b1,
                    buf@,
                    pw as int,
                    ph as int,
                    x_l as int,
                    x_r as int,
                    y as int,
                    y as int + 1,
                    fg,
                );
            }
        }
        let ghost b2 = buf@;
        if ch != ' ' {
            proof {
                broadcast use vstd::std_specs::hash::group_hash_axioms;
            }
            let key = glyph_key(ch, attrs.bold, attrs.italic);
            match self.glyph_cache.get(&key) {
                Some(Some(glyph)) => {
                    let x_off: i64 = (self.col_width / 100) as i64 + ((((col as u64)
                        * self.col_width + 50) / 100) as i64) + (glyph.metrics.xmin as i64);
                    let y_off: i64 = (margin_t as i64) + (self.font_size as i64) - (
                    glyph.metrics.height as i64) + ((((row as u64) * self.row_height + 50) / 100)
                        as i64) - (glyph.metrics.ymin as i64);
                    assert(x_off as int == self.glyph_left(col as int, *glyph));
                    assert(y_off as int == self.glyph_top(row as int, *glyph));
                    blit_glyph(buf, pw, ph, glyph, x_off, y_off, fg, attrs.faint);
                    proof {
                        lemma_blit_to_seq(
                            b2,
                            buf@,
                            pw as int,
                            ph as int,
                            *glyph,
                            x_off as int,
                            y_off as int,
                            fg,
                            attrs.faint,
                        );
                    }
                },
                _ => {},
            }
        }
    }

    /// Renders one frame: fills the buffer with the theme background, then
    /// paints every cell in row-major order (background rectangle,
    /// underline, then the glyph blended by its coverage), resolving colors
    /// and attributes through `text_attrs`. Returns the `pixel_width x
    /// pixel_height` RGBA buffer, pixel for pixel as `render_spec` paints
    /// it.
    #[verifier::loop_isolation(false)]
    pub fn render(&self, lines: &Vec<TermLine>, cursor: Option<(usize, usize)>) -> (buf: Vec<
        Rgba,
    >)
        requires
            self.wf(),
            lines@.len() <= 4096,
            forall|i: int| 0 <= i < lines@.len() ==> (#[trigger] lines@[i]).cells@.len() <= 4096,
        ensures
            buf@.len() == self.pixel_width * self.pixel_height,
            buf@ == self.render_spec(lines@, cursor),
    {
        let pw = self.pixel_width;
        let ph = self.pixel_height;
        let bg_pixel = Rgba {
            r: self.theme.background.r,
            g: self.theme.background.g,
            b: self.theme.background.b,
            a: 255,
        };
        let mut buf: Vec<Rgba> = Vec::new();
        let total = pw * ph;
        let mut n: usize = 0;
        while n < total
            invariant
                buf@.len() == n,
                n <= total,
                buf@ =~= Seq::new(n as nat, |i: int| opaque(self.theme.background)),
            decreases total - n,
        {
            buf.push(bg_pixel);
            assert(buf@ =~= Seq::new((n + 1) as nat, |i: int| opaque(self.theme.background)));
            n = n + 1;
        }
        let ghost target = self.render_spec(lines@, cursor);
        proof {
            assert(buf@ =~= Seq::new(
                (self.pixel_width * self.pixel_height) as nat,
                |i: int| opaque(self.theme.background),
            ));
        }
        let mut row: usize = 0;
        while row < lines.len()
            invariant
                buf@.len() == pw * ph,
                row <= lines@.len(),
                self.painted_rows(buf@, lines@, row as int, cursor) == target,
            decreases lines@.len() - row,
        {
            let ghost row_start = buf@;
            let cells = &lines[row].cells;
            let mut col: usize = 0;
            let mut j: usize = 0;
            proof {
                assert(self.painted_rows(row_start, lines@, row as int, cursor)
                    == self.painted_rows(
                    self.painted_row(row_start, row as int, cells@, 0, 0, cursor),
                    lines@,
                    row as int + 1,
                    cursor,
                ));
            }
            while j < cells.len()
                invariant
                    buf@.len() == pw * ph,
                    j <= cells@.len(),
                    col <= 255 * j,
                    self.painted_rows(
                        self.painted_row(buf@, row as int, cells@, j as int, col as int, cursor),
                        lines@,
                        row as int + 1,
                        cursor,
                    ) == target,
                decreases cells@.len() - j,
            {
                let cell = &cells[j];
                let ghost before = buf@;
                self.paint_cell(&mut buf, row, col, cell, cursor);
                proof {
                    assert(self.painted_row(
                        before,
                        row as int,
                        cells@,
                        j as int,
                        col as int,
                        cursor,
                    ) == self.painted_row(
                        buf@,
                        row as int,
                        cells@,
                        j as int + 1,
                        col as int + cells@[j as int].width,
                        cursor,
                    ));
                }
                col = col + cell.width as usize;
                j = j + 1;
            }
            row = row + 1;
        }
        buf
    }
}

} // verus!
