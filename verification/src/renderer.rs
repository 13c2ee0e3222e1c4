pub mod fontdue;
pub mod resvg;

use vstd::prelude::*;

verus! {

use crate::theme::{Rgb, Theme};
use crate::vt::{Pen, PenColor};

/// The configuration shared by the rendering backends. `line_height` is in
/// hundredths of the font size (140 stands for 1.4).
pub struct Settings {
    pub terminal_size: (usize, usize),
    pub font_families: Vec<String>,
    pub font_size: usize,
    pub line_height: u64,
    pub theme: Theme,
}

/// Builds the vector rendering backend's document builder.
pub fn resvg(settings: Settings) -> (r: resvg::ResvgRenderer)
    requires
        settings.theme.wf(),
        settings.terminal_size.0 <= 4096,
        settings.terminal_size.1 <= 4096,
        settings.font_size <= 1024,
        settings.line_height <= 1000,
    ensures
        r.wf(),
        r.cols == settings.terminal_size.0,
        r.rows == settings.terminal_size.1,
        r.theme == settings.theme,
{
    resvg::ResvgRenderer::new(settings)
}

/// Builds the glyph-cache backed raster compositor; `col_width` is the
/// measured advance width of one column in hundredths of a pixel.
pub fn fontdue(settings: Settings, col_width: u64) -> (r: Option<fontdue::FontdueRenderer>)
    requires
        settings.theme.wf(),
        settings.terminal_size.0 <= 4096,
        settings.terminal_size.1 <= 4096,
        settings.font_size <= 1024,
        settings.line_height <= 1000,
        col_width <= 102_400,
    ensures
        match r {
            Some(r) => r.wf() && r.theme == settings.theme,
            None => true,
        },
{
    fontdue::FontdueRenderer::new(settings, col_width)
}

/// The resolved display attributes of one cell, after indexed-color
/// brightening and cursor/inverse handling.
#[derive(Clone, Copy, Debug, PartialEq, Eq)]
pub struct TextAttrs {
    pub foreground: Option<PenColor>,
    pub background: Option<PenColor>,
    pub bold: bool,
    pub faint: bool,
    pub italic: bool,
    pub underline: bool,
}

/// Bold text brightens a low-intensity indexed foreground (0-7) into its
/// high-intensity counterpart (8-15).
pub open spec fn brightened_foreground(pen: Pen) -> Option<PenColor> {
    if pen.bold {
        match pen.foreground {
            Some(PenColor::Indexed(n)) => if n < 8 {
                Some(PenColor::Indexed((n + 8) as u8))
            } else {
                pen.foreground
            },
            _ => pen.foreground,
        }
    } else {
        pen.foreground
    }
}

/// Blinking text brightens a low-intensity indexed background the same way.
pub open spec fn brightened_background(pen: Pen) -> Option<PenColor> {
    if pen.blink {
        match pen.background {
            Some(PenColor::Indexed(n)) => if n < 8 {
                Some(PenColor::Indexed((n + 8) as u8))
            } else {
                pen.background
            },
            _ => pen.background,
        }
    } else {
        pen.background
    }
}

/// Whether the cursor sits on the cell at (col, row).
pub open spec fn cursor_on_cell(cursor: Option<(usize, usize)>, col: usize, row: usize) -> bool {
    match cursor {
        Some(c) => c.0 == col && c.1 == row,
        None => false,
    }
}

/// The attribute resolution of one cell: brighten indexed colors for bold
/// and blink; then, if the pen's inverse attribute XOR the cursor sitting on
/// the cell demands it, swap foreground and background, filling a missing
/// side from the theme defaults.
pub open spec fn text_attrs_spec(
    pen: Pen,
    cursor: Option<(usize, usize)>,
    col: usize,
    row: usize,
    theme: Theme,
) -> TextAttrs {
    let fg0 = brightened_foreground(pen);
    let bg0 = brightened_background(pen);
    let swap = pen.inverse != cursor_on_cell(cursor, col, row);
    let fg = if swap {
        match bg0 {
            Some(c) => Some(c),
            None => Some(PenColor::Rgb(theme.background)),
        }
    } else {
        fg0
    };
    let bg = if swap {
        match fg0 {
            Some(c) => Some(c),
            None => Some(PenColor::Rgb(theme.foreground)),
        }
    } else {
        bg0
    };
    TextAttrs {
        foreground: fg,
        background: bg,
        bold: pen.bold,
        faint: pen.faint,
        italic: pen.italic,
        underline: pen.underline,
    }
}

/// Resolves the display attributes of one cell against the cursor position
/// and the theme.
pub fn text_attrs(
    pen: &Pen,
    cursor: &Option<(usize, usize)>,
    col: usize,
    row: usize,
    theme: &Theme,
) -> (r: TextAttrs)
    ensures
        r == text_attrs_spec(*pen, *cursor, col, row, *theme),
{
    let mut foreground = pen.foreground;
    let mut background = pen.background;
    let inverse = match cursor {
        Some(c) => c.0 == col && c.1 == row,
        None => false,
    };
    if pen.bold {
        if let Some(PenColor::Indexed(n)) = foreground {
            if n < 8 {
                foreground = Some(PenColor::Indexed(n + 8));
            }
        }
    }
    if pen.blink {
        if let Some(PenColor::Indexed(n)) = background {
            if n < 8 {
                background = Some(PenColor::Indexed(n + 8));
            }
        }
    }
    if pen.inverse != inverse {
        let fg = match background {
            Some(c) => c,
            None => PenColor::Rgb(theme.background),
        };
        let bg = match foreground {
            Some(c) => c,
            None => PenColor::Rgb(theme.foreground),
        };
        foreground = Some(fg);
        background = Some(bg);
    }
    TextAttrs {
        foreground,
        background,
        bold: pen.bold,
        faint: pen.faint,
        italic: pen.italic,
        underline: pen.underline,
    }
}

/// What a cell color denotes under a theme: an explicit RGB value stands
/// for itself, an indexed color goes through the palette.
pub open spec fn color_to_rgb_spec(c: PenColor, theme: Theme) -> Rgb {
    match c {
        PenColor::Rgb(v) => v,
        PenColor::Indexed(n) => theme.color_spec(n),
    }
}

/// Resolves a cell color to RGB through the theme.
pub fn color_to_rgb(c: &PenColor, theme: &Theme) -> (r: Rgb)
    requires
        theme.wf(),
    ensures
        r == color_to_rgb_spec(*c, *theme),
{
    match c {
        PenColor::Rgb(v) => *v,
        PenColor::Indexed(n) => theme.color(*n),
    }
}

} // verus!
