use vstd::prelude::*;

verus! {

use vstd::string::*;
use crate::renderer::{Settings, TextAttrs, text_attrs, text_attrs_spec};
use crate::theme::{Rgb, Theme};
use crate::vt::{PenColor, TermCell, TermLine, chars_to_string};

pub open spec fn digit_char(d: int) -> char {
    if d == 0 {
        '0'
    } else if d == 1 {
        '1'
    } else if d == 2 {
        '2'
    } else if d == 3 {
        '3'
    } else if d == 4 {
        '4'
    } else if d == 5 {
        '5'
    } else if d == 6 {
        '6'
    } else if d == 7 {
        '7'
    } else if d == 8 {
        '8'
    } else {
        '9'
    }
}

/// The decimal digits of `n`, most significant first.
pub open spec fn dec_digits(n: int) -> Seq<char>
    decreases n,
{
    if n < 10 {
        seq![digit_char(n)]
    } else {
        dec_digits(n / 10).push(digit_char(n % 10))
    }
}

fn append_digit(s: &mut String, d: u64)
    requires
        d < 10,
    ensures
        final(s)@ == old(s)@ + seq![digit_char(d as int)],
{
    let c: char = if d == 0 {
        '0'
    } else if d == 1 {
        '1'
    } else if d == 2 {
        '2'
    } else if d == 3 {
        '3'
    } else if d == 4 {
        '4'
    } else if d == 5 {
        '5'
    } else if d == 6 {
        '6'
    } else if d == 7 {
        '7'
    } else if d == 8 {
        '8'
    } else {
        '9'
    };
    append_char(s, c);
}

/// Appends one character to a string.
fn append_char(s: &mut String, c: char)
    ensures
        final(s)@ == old(s)@ + seq![c],
{
    let v: Vec<char> = vec![c];
    let piece = chars_to_string(&v);
    s.append(piece.as_str());
    assert(old(s)@ + v@ =~= old(s)@ + seq![c]);
}

/// Appends the decimal digits of `n`.
fn append_u64(s: &mut String, n: u64)
    ensures
        final(s)@ == old(s)@ + dec_digits(n as int),
    decreases n,
{
    if n < 10 {
        append_digit(s, n);
    } else {
        append_u64(s, n / 10);
        append_digit(s, n % 10);
        assert((old(s)@ + dec_digits(n as int / 10)) + seq![digit_char(n as int % 10)] =~= old(
            s,
        )@ + dec_digits(n as int));
    }
}

/// A coordinate as a percentage with three decimals: `t` is in thousandths
/// of a percent.
pub open spec fn milli_text(t: int) -> Seq<char> {
    dec_digits(t / 1000) + seq!['.'] + seq![
        digit_char((t / 100) % 10),
        digit_char((t / 10) % 10),
        digit_char(t % 10),
    ]
}

fn append_milli(s: &mut String, t: u64)
    ensures
        final(s)@ == old(s)@ + milli_text(t as int),
{
    append_u64(s, t / 1000);
    append_char(s, '.');
    append_digit(s, (t / 100) % 10);
    append_digit(s, (t / 10) % 10);
    append_digit(s, t % 10);
    assert(final(s)@ =~= old(s)@ + milli_text(t as int));
}

/// The style attribute filling with one resolved color.
pub open spec fn fill_style_text(c: Rgb) -> Seq<char> {
    "fill: rgb("@ + dec_digits(c.r as int) + ","@ + dec_digits(c.g as int) + ","@ + dec_digits(
        c.b as int,
    ) + ")"@
}

/// Renders a cell color as a CSS fill style, resolving palette indices
/// through the theme.
pub fn color_to_style(color: &PenColor, theme: &Theme) -> (r: String)
    requires
        theme.wf(),
    ensures
        r@ == fill_style_text(crate::renderer::color_to_rgb_spec(*color, *theme)),
{
    let c = crate::renderer::color_to_rgb(color, theme);
    let mut s = String::new();
    s.append("fill: rgb(");
    append_u64(&mut s, c.r as u64);
    s.append(",");
    append_u64(&mut s, c.g as u64);
    s.append(",");
    append_u64(&mut s, c.b as u64);
    s.append(")");
    assert(s@ =~= fill_style_text(c));
    s
}

/// The CSS classes of a cell: `br` for bold, ` it` for italic, ` un` for
/// underline, concatenated.
pub open spec fn text_class_spec(attrs: TextAttrs) -> Seq<char> {
    (if attrs.bold {
        "br"@
    } else {
        Seq::<char>::empty()
    }) + (if attrs.italic {
        " it"@
    } else {
        Seq::<char>::empty()
    }) + (if attrs.underline {
        " un"@
    } else {
        Seq::<char>::empty()
    })
}

/// The class list of one cell's text span.
pub fn text_class(attrs: &TextAttrs) -> (r: String)
    ensures
        r@ == text_class_spec(*attrs),
{
    let mut class = String::new();
    if attrs.bold {
        class.append("br");
    }
    if attrs.italic {
        class.append(" it");
    }
    if attrs.underline {
        class.append(" un");
    }
    assert(class@ =~= text_class_spec(*attrs));
    class
}

/// The inline style of one cell's text span: its foreground fill, or
/// nothing when the cell has no foreground.
pub open spec fn text_style_spec(attrs: TextAttrs, theme: Theme) -> Seq<char> {
    match attrs.foreground {
        Some(c) => fill_style_text(crate::renderer::color_to_rgb_spec(c, theme)),
        None => Seq::empty(),
    }
}

pub fn text_style(attrs: &TextAttrs, theme: &Theme) -> (r: String)
    requires
        theme.wf(),
    ensures
        r@ == text_style_spec(*attrs, *theme),
{
    match &attrs.foreground {
        Some(c) => color_to_style(c, theme),
        None => {
            let r = String::new();
            assert(r@ =~= text_style_spec(*attrs, *theme));
            r
        },
    }
}

/// The inline style of one cell's background rectangle.
pub open spec fn rect_style_spec(attrs: TextAttrs, theme: Theme) -> Seq<char> {
    match attrs.background {
        Some(c) => fill_style_text(crate::renderer::color_to_rgb_spec(c, theme)),
        None => Seq::empty(),
    }
}

pub fn rect_style(attrs: &TextAttrs, theme: &Theme) -> (r: String)
    requires
        theme.wf(),
    ensures
        r@ == rect_style_spec(*attrs, *theme),
{
    match &attrs.background {
        Some(c) => color_to_style(c, theme),
        None => {
            let r = String::new();
            assert(r@ =~= rect_style_spec(*attrs, *theme));
            r
        },
    }
}

/// A length in hundredths of a pixel, with two decimals.
pub open spec fn centi_text(t: int) -> Seq<char> {
    dec_digits(t / 100) + seq!['.'] + seq![digit_char((t / 10) % 10), digit_char(t % 10)]
}

fn append_centi(s: &mut String, t: u64)
    ensures
        final(s)@ == old(s)@ + centi_text(t as int),
{
    append_u64(s, t / 100);
    append_char(s, '.');
    append_digit(s, (t / 10) % 10);
    append_digit(s, t % 10);
    assert(final(s)@ =~= old(s)@ + centi_text(t as int));
}

/// The configured font families joined with commas, from index `i` on.
pub open spec fn families_joined(families: Seq<String>, i: int) -> Seq<char>
    decreases families.len() - i,
{
    if i < 0 || i >= families.len() {
        Seq::empty()
    } else {
        (if i > 0 {
            ","@
        } else {
            Seq::<char>::empty()
        }) + families[i]@ + families_joined(families, i + 1)
    }
}

/// How one character appears inside SVG text: the five XML-special
/// characters are escaped, everything else stands for itself.
pub open spec fn escaped(ch: char) -> Seq<char> {
    if ch == '\'' {
        "&#39;"@
    } else if ch == '"' {
        "&quot;"@
    } else if ch == '&' {
        "&amp;"@
    } else if ch == '>' {
        "&gt;"@
    } else if ch == '<' {
        "&lt;"@
    } else {
        seq![ch]
    }
}

/// Appends one character of cell text, escaped for SVG.
pub fn append_escaped(svg: &mut String, ch: char)
    ensures
        final(svg)@ == old(svg)@ + escaped(ch),
{
    if ch == '\'' {
        svg.append("&#39;");
    } else if ch == '"' {
        svg.append("&quot;");
    } else if ch == '&' {
        svg.append("&amp;");
    } else if ch == '>' {
        svg.append("&gt;");
    } else if ch == '<' {
        svg.append("&lt;");
    } else {
        append_char(svg, ch);
    }
}

/// The vector rendering backend's document builder: it turns one frame
/// into the SVG text that the external renderer rasterizes. The pixel
/// geometry lives with the external renderer in the surrounding program;
/// this type owns the document text alone.
pub struct ResvgRenderer {
    pub cols: usize,
    pub rows: usize,
    pub theme: Theme,
    pub font_size: usize,
    pub row_height: u64,
    pub header: String,
}

impl ResvgRenderer {
    pub open spec fn wf(&self) -> bool {
        &&& self.theme.wf()
        &&& self.cols <= 4096
        &&& self.rows <= 4096
        &&& self.font_size <= 1024
        &&& self.row_height <= 1_024_000
    }

    /// The document prologue: the outer SVG element sized in pixels, the
    /// style block for bold, italic and underline, the background
    /// rectangle, and the inner SVG translated by one column and half a
    /// row and filled with the foreground color.
    pub open spec fn header_text(
        cols: int,
        rows: int,
        font_size: int,
        line_height: int,
        families: Seq<String>,
        theme: Theme,
    ) -> Seq<char> {
        let row_height = font_size * line_height;
        let width_c = (cols + 2) * font_size * 60;
        let height_c = (rows + 1) * row_height;
        let x_milli = (100_000 + (cols + 2) / 2) / (cols + 2);
        let y_milli = (50_000 + (rows + 1) / 2) / (rows + 1);
        "<?xml version=\"1.0\"?>\n<svg xmlns=\"http://www.w3.org/2000/svg\" xmlns:xlink=\"http://www.w3.org/1999/xlink\" width=\""@
            + centi_text(width_c) + "\" height=\""@ + centi_text(height_c) + "\" font-size=\""@
            + dec_digits(font_size) + "px\" font-family=\""@ + families_joined(families, 0)
            + "\">\n<style>\n.br { font-weight: bold }\n.it { font-style: italic }\n.un { text-decoration: underline }\n</style>\n<rect width=\"100%\" height=\"100%\" rx=\"4\" ry=\"4\" style=\""@
            + fill_style_text(theme.background) + "\" />\n<svg x=\""@ + milli_text(x_milli)
            + "%\" y=\""@ + milli_text(y_milli) + "%\" style=\""@ + fill_style_text(
            theme.foreground,
        ) + "\">"@
    }

    /// Builds the document prologue once; `svg_frame` reuses it for every
    /// frame.
    #[verifier::loop_isolation(false)]
    #[verifier::rlimit(100)]
    pub fn new(settings: Settings) -> (r: ResvgRenderer)
        requires
            settings.theme.wf(),
            settings.terminal_size.0 <= 4096,
            settings.terminal_size.1 <= 4096,
            settings.font_size <= 1024,
            settings.line_height <= 1000,
        ensures
            r.wf(),
            r.cols == settings.terminal_size.0,
            r.rows == settings.terminal_size.1,
            r.theme == settings.theme,
            r.font_size == settings.font_size,
            r.row_height == settings.font_size * settings.line_height,
            r.header@ == Self::header_text(
                settings.terminal_size.0 as int,
                settings.terminal_size.1 as int,
                settings.font_size as int,
                settings.line_height as int,
                settings.font_families@,
                settings.theme,
            ),
    {
        let cols = settings.terminal_size.0;
        let rows = settings.terminal_size.1;
        proof {
            crate::renderer::fontdue::lemma_mul_upper(
                settings.font_size as int,
                settings.line_height as int,
                1024,
                1000,
            );
            crate::renderer::fontdue::lemma_mul_upper(
                cols as int + 2,
                settings.font_size as int,
                4098,
                1024,
            );
            crate::renderer::fontdue::lemma_mul_upper(
                rows as int + 1,
                settings.font_size as int * settings.line_height as int,
                4097,
                1_024_000,
            );
        }
        let row_height: u64 = (settings.font_size as u64) * settings.line_height;
        let width_c: u64 = (cols as u64 + 2) * (settings.font_size as u64) * 60;
        let height_c: u64 = (rows as u64 + 1) * row_height;
        let x_milli: u64 = (100_000 + (cols as u64 + 2) / 2) / (cols as u64 + 2);
        let y_milli: u64 = (50_000 + (rows as u64 + 1) / 2) / (rows as u64 + 1);
        let mut header = String::new();
        header.append("<?xml version=\"1.0\"?>\n<svg xmlns=\"http://www.w3.org/2000/svg\" xmlns:xlink=\"http://www.w3.org/1999/xlink\" width=\"");
        append_centi(&mut header, width_c);
        header.append("\" height=\"");
        append_centi(&mut header, height_c);
        header.append("\" font-size=\"");
        append_u64(&mut header, settings.font_size as u64);
        header.append("px\" font-family=\"");
        let ghost joined_target = header@ + families_joined(settings.font_families@, 0);
        let mut i: usize = 0;
        while i < settings.font_families.len()
            invariant
                i <= settings.font_families@.len(),
                header@ + families_joined(settings.font_families@, i as int) == joined_target,
            decreases settings.font_families@.len() - i,
        {
            if i > 0 {
                header.append(",");
            }
            header.append(settings.font_families[i].as_str());
            proof {
                assert(header@ + families_joined(settings.font_families@, i as int + 1)
                    =~= joined_target);
            }
            i = i + 1;
        }
        assert(header@ == joined_target);
        header.append("\">\n<style>\n.br { font-weight: bold }\n.it { font-style: italic }\n.un { text-decoration: underline }\n</style>\n<rect width=\"100%\" height=\"100%\" rx=\"4\" ry=\"4\" style=\"");
        let bg_style = color_to_style(&PenColor::Rgb(settings.theme.background), &settings.theme);
        header.append(bg_style.as_str());
        header.append("\" />\n<svg x=\"");
        append_milli(&mut header, x_milli);
        header.append("%\" y=\"");
        append_milli(&mut header, y_milli);
        header.append("%\" style=\"");
        let fg_style = color_to_style(&PenColor::Rgb(settings.theme.foreground), &settings.theme);
        header.append(fg_style.as_str());
        header.append("\">");
        proof {
            assert(header@ =~= Self::header_text(
                cols as int,
                rows as int,
                settings.font_size as int,
                settings.line_height as int,
                settings.font_families@,
                settings.theme,
            ));
        }
        ResvgRenderer {
            cols,
            rows,
            theme: settings.theme,
            font_size: settings.font_size,
            row_height,
            header,
        }
    }

    /// The document epilogue.
    pub fn footer(&self) -> (r: &'static str)
        ensures
            r@ == "</svg></svg>"@,
    {
        "</svg></svg>"
    }

    /// The x coordinate of grid column `col` (or a width of `col`
    /// columns), in thousandths of a percent of the drawing width.
    pub open spec fn x_milli_spec(&self, col: int) -> int {
        (col * 100_000 + (self.cols + 2) / 2) / (self.cols + 2)
    }

    /// The y coordinate of grid row `row`, in thousandths of a percent of
    /// the drawing height.
    pub open spec fn y_milli_spec(&self, row: int) -> int {
        (row * 100_000 + (self.rows + 1) / 2) / (self.rows + 1)
    }

    /// The rectangle element of one cell's background, or nothing when the
    /// cell resolved to no background color.
    pub open spec fn rect_text(
        &self,
        row: int,
        col: int,
        cell: TermCell,
        cursor: Option<(usize, usize)>,
    ) -> Seq<char> {
        let attrs = text_attrs_spec(cell.pen, cursor, col as usize, row as usize, self.theme);
        match attrs.background {
            None => Seq::empty(),
            Some(_) => "<rect x=\""@ + milli_text(self.x_milli_spec(col)) + "%\" y=\""@
                + milli_text(self.y_milli_spec(row)) + "%\" width=\""@ + milli_text(
                self.x_milli_spec(cell.width as int),
            ) + "%\" height=\""@ + milli_text(self.row_height * 10) + "\" style=\""@
                + rect_style_spec(attrs, self.theme) + "\" />"@,
        }
    }

    /// The rectangles of the cells of one row from index `j` on.
    pub open spec fn bg_cells_text(
        &self,
        row: int,
        cells: Seq<TermCell>,
        j: int,
        col: int,
        cursor: Option<(usize, usize)>,
    ) -> Seq<char>
        decreases cells.len() - j,
    {
        if j < 0 || j >= cells.len() {
            Seq::empty()
        } else {
            self.rect_text(row, col, cells[j], cursor) + self.bg_cells_text(
                row,
                cells,
                j + 1,
                col + cells[j].width,
                cursor,
            )
        }
    }

    /// The rectangles of all rows from `row` on.
    pub open spec fn bg_rows_text(
        &self,
        lines: Seq<TermLine>,
        row: int,
        cursor: Option<(usize, usize)>,
    ) -> Seq<char>
        decreases lines.len() - row,
    {
        if row < 0 || row >= lines.len() {
            Seq::empty()
        } else {
            self.bg_cells_text(row, lines[row].cells@, 0, 0, cursor) + self.bg_rows_text(
                lines,
                row + 1,
                cursor,
            )
        }
    }

    /// The whole background layer of one frame.
    pub open spec fn background_layer(
        &self,
        lines: Seq<TermLine>,
        cursor: Option<(usize, usize)>,
    ) -> Seq<char> {
        "<g style=\"shape-rendering: optimizeSpeed\">"@ + self.bg_rows_text(lines, 0, cursor)
            + "</g>"@
    }

    /// Appends the background layer of one frame: one filled rectangle per
    /// cell that resolved to a background color, at the cell's fractional
    /// percentage position.
    #[verifier::loop_isolation(false)]
    #[verifier::rlimit(100)]
    pub fn push_background(
        &self,
        svg: &mut String,
        lines: &Vec<TermLine>,
        cursor: Option<(usize, usize)>,
    )
        requires
            self.wf(),
            lines@.len() <= 4096,
            forall|i: int| 0 <= i < lines@.len() ==> (#[trigger] lines@[i]).cells@.len() <= 4096,
        ensures
            final(svg)@ == old(svg)@ + self.background_layer(lines@, cursor),
    {
        let ghost target = old(svg)@ + self.background_layer(lines@, cursor);
        svg.append("<g style=\"shape-rendering: optimizeSpeed\">");
        proof {
            assert(svg@ + self.bg_rows_text(lines@, 0, cursor) + "</g>"@ =~= target);
        }
        let mut row: usize = 0;
        while row < lines.len()
            invariant
                svg@ + self.bg_rows_text(lines@, row as int, cursor) + "</g>"@ == target,
            decreases lines@.len() - row,
        {
            let y_milli: u64 = ((row as u64) * 100_000 + (self.rows as u64 + 1) / 2) / (
            self.rows as u64 + 1);
            assert(y_milli as int == self.y_milli_spec(row as int));
            let cells = &lines[row].cells;
            let mut col: usize = 0;
            let mut j: usize = 0;
            proof {
                assert(svg@ + self.bg_cells_text(row as int, cells@, 0, 0, cursor)
                    + self.bg_rows_text(lines@, row as int + 1, cursor) + "</g>"@ =~= target);
            }
            while j < cells.len()
                invariant
                    col <= 255 * j,
                    j <= cells@.len(),
                    svg@ + self.bg_cells_text(row as int, cells@, j as int, col as int, cursor)
                        + self.bg_rows_text(lines@, row as int + 1, cursor) + "</g>"@ == target,
                decreases cells@.len() - j,
            {
                let cell = &cells[j];
                let width = cell.width as usize;
                let attrs = text_attrs(&cell.pen, &cursor, col, row, &self.theme);
                let ghost entry = svg@;
                if let Some(_) = attrs.background {
                    let x_milli: u64 = ((col as u64) * 100_000 + (self.cols as u64 + 2) / 2) / (
                    self.cols as u64 + 2);
                    let w_milli: u64 = ((width as u64) * 100_000 + (self.cols as u64 + 2) / 2) / (
                    self.cols as u64 + 2);
                    assert(x_milli as int == self.x_milli_spec(col as int));
                    assert(w_milli as int == self.x_milli_spec(cell.width as int));
                    let style = rect_style(&attrs, &self.theme);
                    svg.append("<rect x=\"");
                    append_milli(svg, x_milli);
                    svg.append("%\" y=\"");
                    append_milli(svg, y_milli);
                    svg.append("%\" width=\"");
                    append_milli(svg, w_milli);
                    svg.append("%\" height=\"");
                    append_milli(svg, self.row_height * 10);
                    svg.append("\" style=\"");
                    svg.append(style.as_str());
                    svg.append("\" />");
                    proof {
                        assert(svg@ =~= entry + self.rect_text(
                            row as int,
                            col as int,
                            *cell,
                            cursor,
                        ));
                    }
                } else {
                    proof {
                        assert(svg@ =~= entry + self.rect_text(
                            row as int,
                            col as int,
                            *cell,
                            cursor,
                        ));
                    }
                }
                proof {
                    assert(svg@ + self.bg_cells_text(
                        row as int,
                        cells@,
                        j as int + 1,
                        col as int + cell.width,
                        cursor,
                    ) + self.bg_rows_text(lines@, row as int + 1, cursor) + "</g>"@ =~= target);
                }
                col = col + width;
                j = j + 1;
            }
            row = row + 1;
        }
        svg.append("</g>");
        proof {
            assert(final(svg)@ =~= target);
        }
    }

    /// The span of one non-space cell: its class list, its style, and its
    /// escaped character. The first such span of a row carries the line
    /// advance.
    pub open spec fn tspan_text(
        &self,
        row: int,
        col: int,
        cell: TermCell,
        did_dy: bool,
        cursor: Option<(usize, usize)>,
    ) -> Seq<char> {
        let attrs = text_attrs_spec(cell.pen, cursor, col as usize, row as usize, self.theme);
        "<tspan "@ + (if !did_dy {
            "dy=\"1em\" "@
        } else {
            Seq::<char>::empty()
        }) + "x=\""@ + milli_text(self.x_milli_spec(col)) + "%\" class=\""@ + text_class_spec(
            attrs,
        ) + "\" style=\""@ + text_style_spec(attrs, self.theme) + "\">"@ + escaped(cell.ch)
            + "</tspan>"@
    }

    /// The spans of the cells of one row from index `j` on; space cells
    /// advance the column but emit nothing.
    pub open spec fn text_cells_text(
        &self,
        row: int,
        cells: Seq<TermCell>,
        j: int,
        col: int,
        did_dy: bool,
        cursor: Option<(usize, usize)>,
    ) -> Seq<char>
        decreases cells.len() - j,
    {
        if j < 0 || j >= cells.len() {
            Seq::empty()
        } else if cells[j].ch == ' ' {
            self.text_cells_text(row, cells, j + 1, col + cells[j].width, did_dy, cursor)
        } else {
            self.tspan_text(row, col, cells[j], did_dy, cursor) + self.text_cells_text(
                row,
                cells,
                j + 1,
                col + cells[j].width,
                true,
                cursor,
            )
        }
    }

    /// The span of one whole row.
    pub open spec fn text_row_text(
        &self,
        lines: Seq<TermLine>,
        row: int,
        cursor: Option<(usize, usize)>,
    ) -> Seq<char> {
        "<tspan y=\""@ + milli_text(self.y_milli_spec(row)) + "%\">"@ + self.text_cells_text(
            row,
            lines[row].cells@,
            0,
            0,
            false,
            cursor,
        ) + "</tspan>"@
    }

    /// The spans of all rows from `row` on.
    pub open spec fn text_rows_text(
        &self,
        lines: Seq<TermLine>,
        row: int,
        cursor: Option<(usize, usize)>,
    ) -> Seq<char>
        decreases lines.len() - row,
    {
        if row < 0 || row >= lines.len() {
            Seq::empty()
        } else {
            self.text_row_text(lines, row, cursor) + self.text_rows_text(lines, row + 1, cursor)
        }
    }

    /// The whole text layer of one frame.
    pub open spec fn text_layer(
        &self,
        lines: Seq<TermLine>,
        cursor: Option<(usize, usize)>,
    ) -> Seq<char> {
        "<text class=\"default-text-fill\">"@ + self.text_rows_text(lines, 0, cursor)
            + "</text>"@
    }

    /// Appends the span of one non-space cell.
    #[verifier::rlimit(100)]
    fn push_tspan(
        &self,
        svg: &mut String,
        row: usize,
        col: usize,
        cell: &TermCell,
        did_dy: bool,
        cursor: Option<(usize, usize)>,
    )
        requires
            self.wf(),
            row < 4096,
            col <= 1_045_000,
            cell.ch != ' ',
        ensures
            final(svg)@ == old(svg)@ + self.tspan_text(row as int, col as int, *cell, did_dy, cursor),
    {
        let attrs = text_attrs(&cell.pen, &cursor, col, row, &self.theme);
        svg.append("<tspan ");
        if !did_dy {
            svg.append("dy=\"1em\" ");
        }
        let x_milli: u64 = ((col as u64) * 100_000 + (self.cols as u64 + 2) / 2) / (self.cols
            as u64 + 2);
        assert(x_milli as int == self.x_milli_spec(col as int));
        let class = text_class(&attrs);
        let style = text_style(&attrs, &self.theme);
        svg.append("x=\"");
        append_milli(svg, x_milli);
        svg.append("%\" class=\"");
        svg.append(class.as_str());
        svg.append("\" style=\"");
        svg.append(style.as_str());
        svg.append("\">");
        append_escaped(svg, cell.ch);
        svg.append("</tspan>");
        proof {
            assert(final(svg)@ =~= old(svg)@ + self.tspan_text(
                row as int,
                col as int,
                *cell,
                did_dy,
                cursor,
            ));
        }
    }

    /// Appends the span of one row.
    #[verifier::loop_isolation(false)]
    #[verifier::rlimit(100)]
    fn push_text_row(
        &self,
        svg: &mut String,
        lines: &Vec<TermLine>,
        row: usize,
        cursor: Option<(usize, usize)>,
    )
        requires
            self.wf(),
            row < lines@.len(),
            lines@.len() <= 4096,
            forall|i: int| 0 <= i < lines@.len() ==> (#[trigger] lines@[i]).cells@.len() <= 4096,
        ensures
            final(svg)@ == old(svg)@ + self.text_row_text(lines@, row as int, cursor),
    {
        let ghost target = old(svg)@ + self.text_row_text(lines@, row as int, cursor);
        let y_milli: u64 = ((row as u64) * 100_000 + (self.rows as u64 + 1) / 2) / (self.rows
            as u64 + 1);
        assert(y_milli as int == self.y_milli_spec(row as int));
        svg.append("<tspan y=\"");
        append_milli(svg, y_milli);
        svg.append("%\">");
        let mut did_dy = false;
        let cells = &lines[row].cells;
        let mut col: usize = 0;
        let mut j: usize = 0;
        proof {
            assert(svg@ + self.text_cells_text(row as int, cells@, 0, 0, false, cursor)
                + "</tspan>"@ =~= target);
        }
        while j < cells.len()
            invariant
                col <= 255 * j,
                j <= cells@.len(),
                svg@ + self.text_cells_text(row as int, cells@, j as int, col as int, did_dy, cursor)
                    + "</tspan>"@ == target,
            decreases cells@.len() - j,
        {
            let cell = &cells[j];
            let width = cell.width as usize;
            if cell.ch == ' ' {
                col = col + width;
                j = j + 1;
            } else {
                self.push_tspan(svg, row, col, cell, did_dy, cursor);
                proof {
                    assert(svg@ + self.text_cells_text(
                        row as int,
                        cells@,
                        j as int + 1,
                        col as int + cell.width,
                        true,
                        cursor,
                    ) + "</tspan>"@ =~= target);
                }
                did_dy = true;
                col = col + width;
                j = j + 1;
            }
        }
        svg.append("</tspan>");
        proof {
            assert(final(svg)@ =~= target);
        }
    }

    /// Appends the text layer of one frame: one span per row, one inner
    /// span per non-space cell with its class list, style and escaped
    /// character.
    #[verifier::loop_isolation(false)]
    pub fn push_text(
        &self,
        svg: &mut String,
        lines: &Vec<TermLine>,
        cursor: Option<(usize, usize)>,
    )
        requires
            self.wf(),
            lines@.len() <= 4096,
            forall|i: int| 0 <= i < lines@.len() ==> (#[trigger] lines@[i]).cells@.len() <= 4096,
        ensures
            final(svg)@ == old(svg)@ + self.text_layer(lines@, cursor),
    {
        let ghost target = old(svg)@ + self.text_layer(lines@, cursor);
        svg.append("<text class=\"default-text-fill\">");
        proof {
            assert(svg@ + self.text_rows_text(lines@, 0, cursor) + "</text>"@ =~= target);
        }
        let mut row: usize = 0;
        while row < lines.len()
            invariant
                svg@ + self.text_rows_text(lines@, row as int, cursor) + "</text>"@ == target,
            decreases lines@.len() - row,
        {
            let ghost entry = svg@;
            self.push_text_row(svg, lines, row, cursor);
            proof {
                assert(svg@ + self.text_rows_text(lines@, row as int + 1, cursor) + "</text>"@
                    =~= target);
            }
            row = row + 1;
        }
        svg.append("</text>");
        proof {
            assert(final(svg)@ =~= target);
        }
    }

    /// The whole SVG document of one frame: prologue, background layer,
    /// text layer, epilogue.
    pub fn svg_frame(&self, lines: &Vec<TermLine>, cursor: Option<(usize, usize)>) -> (r: String)
        requires
            self.wf(),
            lines@.len() <= 4096,
            forall|i: int| 0 <= i < lines@.len() ==> (#[trigger] lines@[i]).cells@.len() <= 4096,
        ensures
            r@ == self.header@ + self.background_layer(lines@, cursor) + self.text_layer(
                lines@,
                cursor,
            ) + "</svg></svg>"@,
    {
        let mut svg = self.header.clone();
        assert(svg@ == self.header@);
        self.push_background(&mut svg, lines, cursor);
        self.push_text(&mut svg, lines, cursor);
        svg.append(self.footer());
        proof {
            assert(svg@ =~= self.header@ + self.background_layer(lines@, cursor)
                + self.text_layer(lines@, cursor) + "</svg></svg>"@);
        }
        svg
    }
}

} // verus!
