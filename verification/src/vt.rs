use vstd::prelude::*;

verus! {

use crate::events::{OutputEvent, events_view, sorted_events};
use crate::theme::Rgb;

/// A terminal cell color: an explicit RGB value or a palette index that the
/// compositor resolves through the active theme.
#[derive(Clone, Copy, Debug, PartialEq, Eq)]
pub enum PenColor {
    Indexed(u8),
    Rgb(Rgb),
}

/// The style attributes of one terminal cell, as the terminal model
/// reports them.
#[derive(Clone, Copy, Debug, PartialEq, Eq)]
pub struct Pen {
    pub foreground: Option<PenColor>,
    pub background: Option<PenColor>,
    pub bold: bool,
    pub faint: bool,
    pub italic: bool,
    pub underline: bool,
    pub blink: bool,
    pub inverse: bool,
}

/// One grid cell: its character, its display width in columns (0 for the
/// tail of a double-width character, 2 for its head) and its pen.
#[derive(Clone, Copy, Debug)]
pub struct TermCell {
    pub ch: char,
    pub width: u8,
    pub pen: Pen,
}

/// One row of the visible grid.
#[derive(Clone, Debug)]
pub struct TermLine {
    pub cells: Vec<TermCell>,
}

impl TermLine {
    /// The characters of the row, in order.
    pub open spec fn text_spec(&self) -> Seq<char> {
        Seq::new(self.cells@.len(), |i: int| self.cells@[i].ch)
    }

    /// The row as a string.
    #[verifier::loop_isolation(false)]
    pub fn text(&self) -> (r: String)
        ensures
            r@ == self.text_spec(),
    {
        let mut chars: Vec<char> = Vec::new();
        let mut i: usize = 0;
        while i < self.cells.len()
            invariant
                i <= self.cells@.len(),
                chars@ =~= self.text_spec().subrange(0, i as int),
            decreases self.cells@.len() - i,
        {
            chars.push(self.cells[i].ch);
            assert(chars@ =~= self.text_spec().subrange(0, i + 1));
            i = i + 1;
        }
        assert(chars@ =~= self.text_spec());
        chars_to_string(&chars)
    }
}

/// One frame to hand to the compositor: the timestamp, the visible grid and
/// the cursor position (column, row), absent when the cursor is hidden.
pub type Frame = (u64, Vec<TermLine>, Option<(usize, usize)>);

#[verifier::external_type_specification]
#[verifier::external_body]
pub struct ExVt(avt::Vt);

#[verifier::external_type_specification]
#[verifier::external_body]
pub struct ExCell(avt::Cell);

#[verifier::external_type_specification]
#[verifier::external_body]
pub struct ExColor(avt::Color);

/// The terminal avt's builder constructs for the given size with no
/// scrollback retention.
pub uninterp spec fn vt_initial(cols: usize, rows: usize) -> avt::Vt;

/// The terminal state after avt::Vt::feed_str consumed the text. The
/// emulation is a pure function of the previous state and the text.
pub uninterp spec fn vt_after_feed(vt: avt::Vt, data: Seq<char>) -> avt::Vt;

/// The row indices the same avt::Vt::feed_str call reports as changed.
pub uninterp spec fn feed_changes(vt: avt::Vt, data: Seq<char>) -> Seq<usize>;

/// What avt::Vt::cursor reports for a terminal state, as a position, or
/// nothing when the cursor is hidden.
pub uninterp spec fn cursor_of(vt: avt::Vt) -> Option<(usize, usize)>;

/// The visible grid avt::Vt::view reports for a terminal state: one row of
/// cells per visible line.
pub uninterp spec fn grid_of(vt: avt::Vt) -> Seq<Seq<avt::Cell>>;

/// What avt::Cell::char returns.
pub uninterp spec fn char_of(c: avt::Cell) -> char;

/// What avt::Cell::width returns.
pub uninterp spec fn width_of(c: avt::Cell) -> u8;

/// What avt::Pen::foreground returns for a cell's pen.
pub uninterp spec fn foreground_of(c: avt::Cell) -> Option<avt::Color>;

/// What avt::Pen::background returns for a cell's pen.
pub uninterp spec fn background_of(c: avt::Cell) -> Option<avt::Color>;

/// The six attribute flags of a cell's pen, in the order bold, faint,
/// italic, underline, blink, inverse.
pub uninterp spec fn flags_of(c: avt::Cell) -> (bool, bool, bool, bool, bool, bool);

/// An avt color as the library's own color type: the same variant, the
/// same channels or index.
pub uninterp spec fn pen_color_of(c: avt::Color) -> PenColor;

/// Relies on String's `FromIterator<char>` impl: the collected string holds
/// exactly the given characters, in order.
#[verifier::external_body]
pub(crate) fn chars_to_string(v: &Vec<char>) -> (r: String)
    ensures
        r@ == v@,
{
    v.iter().collect()
}

/// The terminal model: the external emulation engine sized once at
/// construction and never resized, together with that size.
pub struct Terminal {
    vt: avt::Vt,
    cols: usize,
    rows: usize,
}

/// Relies on avt::Vt::builder: a terminal of the given size with no
/// scrollback retention. A zero-size terminal is excluded: avt's terminal
/// constructor subtracts one from the row count.
#[verifier::external_body]
fn vt_new(cols: usize, rows: usize) -> (vt: avt::Vt)
    requires
        cols >= 1,
        rows >= 1,
    ensures
        vt == vt_initial(cols, rows),
{
    avt::Vt::builder().size(cols, rows).scrollback_limit(0).build()
}

/// Relies on avt::Vt::feed_str: feeds the text to the terminal, leaving the
/// state `vt_after_feed` and reporting `feed_changes`, the indices of the
/// rows whose content changed. The terminal keeps its size. A zero-size
/// terminal is excluded: avt indexes a line's cells when printing.
#[verifier::external_body]
fn vt_feed(term: &mut Terminal, data: &str) -> (changed: Vec<usize>)
    requires
        old(term).cols >= 1,
        old(term).rows >= 1,
    ensures
        final(term).cols == old(term).cols,
        final(term).rows == old(term).rows,
        final(term).vt == vt_after_feed(old(term).vt, data@),
        changed@ == feed_changes(old(term).vt, data@),
{
    term.vt.feed_str(data).lines
}

/// Relies on avt::Vt::cursor: the cursor position, absent when hidden.
#[verifier::external_body]
fn vt_cursor(term: &Terminal) -> (r: Option<(usize, usize)>)
    ensures
        r == cursor_of(term.vt),
{
    term.vt.cursor().into()
}

/// Relies on avt::Vt::view and avt::Line::cells: the visible grid of a
/// terminal built with `cols` columns and `rows` rows (and never resized)
/// has exactly `rows` rows of exactly `cols` cells each.
#[verifier::external_body]
fn vt_grid(term: &Terminal) -> (r: Vec<Vec<avt::Cell>>)
    ensures
        r@.len() == term.rows,
        forall|i: int| 0 <= i < r@.len() ==> (#[trigger] r@[i])@.len() == term.cols,
        grid_of(term.vt).len() == r@.len(),
        forall|i: int| 0 <= i < r@.len() ==> (#[trigger] r@[i])@ == grid_of(term.vt)[i],
{
    term.vt.view().map(|l| l.cells().to_vec()).collect()
}

/// Relies on avt::Cell::char.
#[verifier::external_body]
fn cell_char(c: &avt::Cell) -> (r: char)
    ensures
        r == char_of(*c),
{
    c.char()
}

/// Relies on avt::Cell::width: 1 for an ordinary cell, 2 for the head of a
/// double-width character, 0 for its tail.
#[verifier::external_body]
fn cell_width(c: &avt::Cell) -> (r: u8)
    ensures
        r == width_of(*c),
        r <= 2,
{
    c.width()
}

/// Relies on avt::Pen::foreground.
#[verifier::external_body]
fn cell_foreground(c: &avt::Cell) -> (r: Option<avt::Color>)
    ensures
        r == foreground_of(*c),
{
    c.pen().foreground()
}

/// Relies on avt::Pen::background.
#[verifier::external_body]
fn cell_background(c: &avt::Cell) -> (r: Option<avt::Color>)
    ensures
        r == background_of(*c),
{
    c.pen().background()
}

/// Relies on avt::Pen's attribute accessors, in the order bold, faint,
/// italic, underline, blink, inverse.
#[verifier::external_body]
fn cell_flags(c: &avt::Cell) -> (r: (bool, bool, bool, bool, bool, bool))
    ensures
        r == flags_of(*c),
{
    let p = c.pen();
    (p.is_bold(), p.is_faint(), p.is_italic(), p.is_underline(), p.is_blink(), p.is_inverse())
}

/// Relies on avt::Color's two variants: an explicit RGB value or a palette
/// index.
#[verifier::external_body]
fn color_parts(c: &avt::Color) -> (r: PenColor)
    ensures
        r == pen_color_of(*c),
{
    match c {
        avt::Color::RGB(v) => PenColor::Rgb(Rgb { r: v.r, g: v.g, b: v.b }),
        avt::Color::Indexed(n) => PenColor::Indexed(*n),
    }
}

fn convert_color(c: &Option<avt::Color>) -> (r: Option<PenColor>)
    ensures
        r == (match *c {
            Some(x) => Some(pen_color_of(x)),
            None => None::<PenColor>,
        }),
{
    match c {
        Some(v) => Some(color_parts(v)),
        None => None,
    }
}

/// The pen of an avt cell, in the library's own terms.
pub open spec fn pen_spec(c: avt::Cell) -> Pen {
    let f = flags_of(c);
    Pen {
        foreground: match foreground_of(c) {
            Some(x) => Some(pen_color_of(x)),
            None => None,
        },
        background: match background_of(c) {
            Some(x) => Some(pen_color_of(x)),
            None => None,
        },
        bold: f.0,
        faint: f.1,
        italic: f.2,
        underline: f.3,
        blink: f.4,
        inverse: f.5,
    }
}

/// An avt cell, in the library's own terms.
pub open spec fn cell_spec(c: avt::Cell) -> TermCell {
    TermCell { ch: char_of(c), width: width_of(c), pen: pen_spec(c) }
}

/// One converted row agrees with one row of the terminal's grid, cell for
/// cell.
pub open spec fn line_matches(line: TermLine, row: Seq<avt::Cell>) -> bool {
    &&& line.cells@.len() == row.len()
    &&& forall|j: int| 0 <= j < row.len() ==> line.cells@[j] == cell_spec(#[trigger] row[j])
}

/// A converted grid agrees with the terminal's grid, row for row.
pub open spec fn grid_matches(lines: Seq<TermLine>, g: Seq<Seq<avt::Cell>>) -> bool {
    &&& lines.len() == g.len()
    &&& forall|i: int| 0 <= i < g.len() ==> line_matches(lines[i], #[trigger] g[i])
}

impl Terminal {
    pub closed spec fn cols(&self) -> usize {
        self.cols
    }

    pub closed spec fn rows(&self) -> usize {
        self.rows
    }

    /// The state of the external emulation engine.
    pub closed spec fn state(&self) -> avt::Vt {
        self.vt
    }

    /// The terminal has at least one column and one row.
    pub closed spec fn wf(&self) -> bool {
        self.cols >= 1 && self.rows >= 1
    }

    /// A fresh terminal of the given size, with an empty grid.
    pub fn create(cols: usize, rows: usize) -> (t: Terminal)
        requires
            cols >= 1,
            rows >= 1,
        ensures
            t.cols() == cols,
            t.rows() == rows,
            t.wf(),
            t.state() == vt_initial(cols, rows),
    {
        Terminal { vt: vt_new(cols, rows), cols, rows }
    }

    /// Feeds raw terminal output to the model; returns the indices of the
    /// rows that changed.
    pub fn feed(&mut self, data: &str) -> (changed: Vec<usize>)
        requires
            old(self).wf(),
        ensures
            final(self).cols() == old(self).cols(),
            final(self).rows() == old(self).rows(),
            final(self).wf(),
            final(self).state() == vt_after_feed(old(self).state(), data@),
            changed@ == feed_changes(old(self).state(), data@),
    {
        vt_feed(self, data)
    }

    /// The cursor position, absent when the cursor is hidden.
    pub fn cursor(&self) -> (r: Option<(usize, usize)>)
        ensures
            r == cursor_of(self.state()),
    {
        vt_cursor(self)
    }

    /// A snapshot of the visible grid: `rows()` rows of `cols()` cells,
    /// converted cell for cell from the terminal's state.
    #[verifier::loop_isolation(false)]
    pub fn grid(&self) -> (g: Vec<TermLine>)
        ensures
            g@.len() == self.rows(),
            forall|i: int| 0 <= i < g@.len() ==> (#[trigger] g@[i]).cells@.len() == self.cols(),
            grid_matches(g@, grid_of(self.state())),
    {
        let raw = vt_grid(self);
        let mut g: Vec<TermLine> = Vec::new();
        let mut i: usize = 0;
        while i < raw.len()
            invariant
                i <= raw@.len(),
                g@.len() == i,
                forall|j: int| 0 <= j < i ==> (#[trigger] g@[j]).cells@.len() == self.cols(),
                forall|j: int| 0 <= j < i ==> line_matches(#[trigger] g@[j], grid_of(self.state())[j]),
            decreases raw@.len() - i,
        {
            let row = &raw[i];
            let mut cells: Vec<TermCell> = Vec::new();
            let mut k: usize = 0;
            while k < row.len()
                invariant
                    k <= row@.len(),
                    cells@.len() == k,
                    forall|k2: int| 0 <= k2 < k ==> cells@[k2] == cell_spec(#[trigger] row@[k2]),
                decreases row@.len() - k,
            {
                let c = &row[k];
                let ch = cell_char(c);
                let width = cell_width(c);
                let (bold, faint, italic, underline, blink, inverse) = cell_flags(c);
                let pen = Pen {
                    foreground: convert_color(&cell_foreground(c)),
                    background: convert_color(&cell_background(c)),
                    bold,
                    faint,
                    italic,
                    underline,
                    blink,
                    inverse,
                };
                cells.push(TermCell { ch, width, pen });
                k = k + 1;
            }
            g.push(TermLine { cells });
            proof {
                assert(line_matches(g@[i as int], grid_of(self.state())[i as int]));
            }
            i = i + 1;
        }
        g
    }
}

/// Whether a frame is emitted for an event: at least one row changed, or
/// the cursor moved (or appeared or disappeared) since the last event.
pub open spec fn frame_emitted(
    changed: Seq<usize>,
    cursor: Option<(usize, usize)>,
    prev_cursor: Option<(usize, usize)>,
) -> bool {
    changed.len() > 0 || cursor != prev_cursor
}

/// The terminal state after the first `i` events of the stream were fed,
/// starting from a fresh terminal of the given size.
pub open spec fn state_at(
    events: Seq<(u64, Seq<char>)>,
    i: int,
    cols: usize,
    rows: usize,
) -> avt::Vt
    decreases i,
{
    if i <= 0 {
        vt_initial(cols, rows)
    } else {
        vt_after_feed(state_at(events, i - 1, cols, rows), events[i - 1].1)
    }
}

/// The cursor position just before event `i` is fed: the position after the
/// previous event, or nothing at the start of the stream.
pub open spec fn cursor_before(
    events: Seq<(u64, Seq<char>)>,
    i: int,
    cols: usize,
    rows: usize,
) -> Option<(usize, usize)> {
    if i <= 0 {
        None::<(usize, usize)>
    } else {
        cursor_of(state_at(events, i, cols, rows))
    }
}

/// Whether event `i` of the stream produces a frame: its feed reported at
/// least one changed row, or it moved the cursor.
pub open spec fn emits_frame(
    events: Seq<(u64, Seq<char>)>,
    i: int,
    cols: usize,
    rows: usize,
) -> bool {
    frame_emitted(
        feed_changes(state_at(events, i, cols, rows), events[i].1),
        cursor_of(state_at(events, i + 1, cols, rows)),
        cursor_before(events, i, cols, rows),
    )
}

/// How many of the first `i` events produce a frame.
pub open spec fn frame_count(
    events: Seq<(u64, Seq<char>)>,
    i: int,
    cols: usize,
    rows: usize,
) -> int
    decreases i,
{
    if i <= 0 {
        0int
    } else {
        frame_count(events, i - 1, cols, rows) + (if emits_frame(events, i - 1, cols, rows) {
            1int
        } else {
            0int
        })
    }
}

/// Law (frame-synthesis suppression): an event whose feed changes no row
/// and leaves the cursor where it stood produces no frame, and the frame
/// count does not advance past it. In particular, feeding the same text
/// twice in a row emits at most one frame for the pair when the second
/// feed has no visual effect.
pub proof fn lemma_no_visual_change_no_frame(
    events: Seq<(u64, Seq<char>)>,
    i: int,
    cols: usize,
    rows: usize,
)
    requires
        0 <= i < events.len(),
        feed_changes(state_at(events, i, cols, rows), events[i].1).len() == 0,
        cursor_of(state_at(events, i + 1, cols, rows)) == cursor_before(events, i, cols, rows),
    ensures
        !emits_frame(events, i, cols, rows),
        frame_count(events, i + 1, cols, rows) == frame_count(events, i, cols, rows),
{
}

fn cursor_eq(a: &Option<(usize, usize)>, b: &Option<(usize, usize)>) -> (r: bool)
    ensures
        r == (a == b),
{
    match (a, b) {
        (Some(x), Some(y)) => x.0 == y.0 && x.1 == y.1,
        (None, None) => true,
        _ => false,
    }
}

/// Decides whether an event's outcome is worth a frame.
fn should_emit(
    changed: &Vec<usize>,
    cursor: &Option<(usize, usize)>,
    prev_cursor: &Option<(usize, usize)>,
) -> (r: bool)
    ensures
        r == frame_emitted(changed@, *cursor, *prev_cursor),
{
    changed.len() > 0 || !cursor_eq(cursor, prev_cursor)
}

/// Replays the event stream through a fresh terminal of the given size
/// (`vt_initial`, no scrollback), feeding every event's text exactly once,
/// in order. A frame is emitted for event `i` exactly when its feed
/// reported a changed row or moved the cursor (`emits_frame`); the frame
/// carries the event's timestamp, the full converted grid snapshot of the
/// state after the feed, and the cursor position after the feed. Suppressed
/// events leave no trace.
#[verifier::loop_isolation(false)]
#[verifier::rlimit(100)]
pub fn frames(stdout: &Vec<OutputEvent>, terminal_size: (usize, usize)) -> (r: Vec<Frame>)
    requires
        terminal_size.0 >= 1,
        terminal_size.1 >= 1,
    ensures
        r@.len() == frame_count(
            events_view(stdout@),
            stdout@.len() as int,
            terminal_size.0,
            terminal_size.1,
        ),
        forall|i: int|
            0 <= i < stdout@.len() && #[trigger] emits_frame(
                events_view(stdout@),
                i,
                terminal_size.0,
                terminal_size.1,
            ) ==> ({
                let k = frame_count(events_view(stdout@), i, terminal_size.0, terminal_size.1);
                &&& 0 <= k < r@.len()
                &&& r@[k].0 == stdout@[i].0
                &&& r@[k].2 == cursor_of(
                    state_at(events_view(stdout@), i + 1, terminal_size.0, terminal_size.1),
                )
                &&& grid_matches(
                    r@[k].1@,
                    grid_of(
                        state_at(events_view(stdout@), i + 1, terminal_size.0, terminal_size.1),
                    ),
                )
            }),
        r@.len() <= stdout@.len(),
        forall|k: int| 0 <= k < r@.len() ==> (#[trigger] r@[k]).1@.len() == terminal_size.1,
        forall|k: int, j: int|
            0 <= k < r@.len() && 0 <= j < terminal_size.1 ==> (#[trigger] r@[k].1@[j]).cells@.len()
                == terminal_size.0,
        sorted_events(stdout@) ==> forall|k: int| 1 <= k < r@.len() ==> (#[trigger] r@[k]).0
            >= r@[k - 1].0,
{
    let ghost ev = events_view(stdout@);
    let ghost cols = terminal_size.0;
    let ghost rows = terminal_size.1;
    let mut term = Terminal::create(terminal_size.0, terminal_size.1);
    let mut prev_cursor: Option<(usize, usize)> = None;
    let mut out: Vec<Frame> = Vec::new();
    let mut i: usize = 0;
    while i < stdout.len()
        invariant
            i <= stdout@.len(),
            term.cols() == terminal_size.0,
            term.rows() == terminal_size.1,
            term.wf(),
            term.state() == state_at(ev, i as int, cols, rows),
            prev_cursor == cursor_before(ev, i as int, cols, rows),
            out@.len() == frame_count(ev, i as int, cols, rows),
            out@.len() <= i,
            forall|j: int|
                0 <= j < i && #[trigger] emits_frame(ev, j, cols, rows) ==> ({
                    let k = frame_count(ev, j, cols, rows);
                    &&& 0 <= k < out@.len()
                    &&& out@[k].0 == stdout@[j].0
                    &&& out@[k].2 == cursor_of(state_at(ev, j + 1, cols, rows))
                    &&& grid_matches(out@[k].1@, grid_of(state_at(ev, j + 1, cols, rows)))
                }),
            forall|k: int| 0 <= k < out@.len() ==> (#[trigger] out@[k]).1@.len()
                == terminal_size.1,
            forall|k: int, j: int|
                0 <= k < out@.len() && 0 <= j < terminal_size.1 ==> (#[trigger] out@[k].1@[j]).cells@.len() == terminal_size.0,
            sorted_events(stdout@) ==> forall|k: int| 1 <= k < out@.len() ==> (#[trigger] out@[k]).0 >= out@[k - 1].0,
            sorted_events(stdout@) && out@.len() > 0 && i < stdout@.len() ==> out@.last().0
                <= stdout@[i as int].0,
        decreases stdout@.len() - i,
    {
        proof {
            assert(ev[i as int].1 == stdout@[i as int].1@);
        }
        let time = stdout[i].0;
        let changed = term.feed(stdout[i].1.as_str());
        proof {
            assert(term.state() == state_at(ev, i + 1, cols, rows));
            assert(changed@ == feed_changes(state_at(ev, i as int, cols, rows), ev[i as int].1));
        }
        let cursor = term.cursor();
        let ghost emitted = emits_frame(ev, i as int, cols, rows);
        if should_emit(&changed, &cursor, &prev_cursor) {
            assert(emitted);
            let lines = term.grid();
            let ghost out0 = out@;
            out.push((time, lines, cursor));
            proof {
                assert(out@[out0.len() as int].0 == stdout@[i as int].0);
                assert(forall|k: int| 0 <= k < out0.len() ==> #[trigger] out@[k] == out0[k]);
            }
        } else {
            assert(!emitted);
        }
        prev_cursor = cursor;
        i = i + 1;
    }
    out
}

} // verus!
