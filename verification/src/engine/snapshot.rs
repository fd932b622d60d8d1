//! The grid snapshot: refilled in place from what the terminal reports.

use crate::engine::cells::{blank, copied, copy_cell, Cell, CellRead, CellView, Colors};
use crate::engine::{BoldColor, CursorShape, ImagePlacement, Rgb};
use vstd::prelude::*;

verus! {

/// The screen at one instant, row-major: `cells[y * cols + x]`.
#[derive(Clone, Debug)]
pub struct GridSnapshot {
    pub cols: u16,
    pub rows: u16,
    pub cells: Vec<Cell>,
    /// The row above the viewport, filled only while scrolling smoothly.
    pub over_row: Vec<Cell>,
    pub cursor_x: u16,
    pub cursor_y: u16,
    pub cursor_visible: bool,
    pub cursor_blinking: bool,
    pub cursor_shape: CursorShape,
    pub cursor_color: Rgb,
    pub default_fg: Rgb,
    pub default_bg: Rgb,
    /// Some cell blinks.
    pub has_blink: bool,
    /// Placements in draw order.
    pub images: Vec<ImagePlacement>,
}

/// What a row of cells shows.
pub open spec fn shown(cells: Seq<Cell>) -> Seq<CellView> {
    cells.map_values(|c: Cell| c@)
}

impl Default for GridSnapshot {
    /// An empty grid.
    fn default() -> (s: Self)
        ensures
            s.cols == 0,
            s.rows == 0,
            s.cells@.len() == 0,
            s.over_row@.len() == 0,
            s.cursor_x == 0,
            s.cursor_y == 0,
            !s.cursor_visible,
            !s.cursor_blinking,
            s.cursor_shape == CursorShape::Block,
            s.cursor_color == (Rgb { r: 0, g: 0, b: 0 }),
            s.default_fg == (Rgb { r: 0, g: 0, b: 0 }),
            s.default_bg == (Rgb { r: 0, g: 0, b: 0 }),
            !s.has_blink,
            s.images@.len() == 0,
    {
        GridSnapshot {
            cols: 0,
            rows: 0,
            cells: Vec::new(),
            over_row: Vec::new(),
            cursor_x: 0,
            cursor_y: 0,
            cursor_visible: false,
            cursor_blinking: false,
            cursor_shape: CursorShape::Block,
            cursor_color: Rgb::new(0, 0, 0),
            default_fg: Rgb::new(0, 0, 0),
            default_bg: Rgb::new(0, 0, 0),
            has_blink: false,
            images: Vec::new(),
        }
    }
}

/// The column of place `i` in a grid of `cols` columns.
pub open spec fn col_of(i: int, cols: int) -> int {
    i % cols
}

/// The row of place `i` in a grid of `cols` columns.
pub open spec fn row_of(i: int, cols: int) -> int {
    i / cols
}

proof fn lemma_cell_index(x: int, y: int, cols: int, rows: int)
    requires
        0 <= x < cols,
        0 <= y < rows,
    ensures
        0 <= y * cols + x < cols * rows,
        row_of(y * cols + x, cols) == y,
        col_of(y * cols + x, cols) == x,
{
    assert(0 <= y * cols + x < cols * rows) by (nonlinear_arith)
        requires
            0 <= x < cols,
            0 <= y < rows,
    ;
    vstd::arithmetic::div_mod::lemma_fundamental_div_mod_converse(y * cols + x, cols, y, x);
}

/// Each place has its row and its column, and they tell the place.
proof fn lemma_places(cols: int, rows: int)
    requires
        0 <= cols,
        0 <= rows,
    ensures
        forall|i: int|
            #![trigger row_of(i, cols)]
            #![trigger col_of(i, cols)]
            0 <= i < cols * rows ==> 0 <= row_of(i, cols) < rows && 0 <= col_of(i, cols) < cols && i
                == row_of(i, cols) * cols + col_of(i, cols),
{
    assert forall|i: int|
        #![trigger row_of(i, cols)]
        #![trigger col_of(i, cols)]
        0 <= i < cols * rows implies 0 <= row_of(i, cols) < rows && 0 <= col_of(i, cols) < cols && i
        == row_of(i, cols) * cols + col_of(i, cols) by {
        assert(cols > 0) by (nonlinear_arith)
            requires
                0 <= i < cols * rows,
                0 <= cols,
        ;
        vstd::arithmetic::div_mod::lemma_fundamental_div_mod(i, cols);
        vstd::arithmetic::div_mod::lemma_mod_bound(i, cols);
        let q = i / cols;
        let r = i % cols;
        assert(0 <= q < rows) by (nonlinear_arith)
            requires
                i == cols * q + r,
                0 <= r < cols,
                0 <= i < cols * rows,
                cols > 0,
        ;
        assert(cols * q == q * cols) by (nonlinear_arith);
    }
}

impl GridSnapshot {
    /// A cell for every place of the grid.
    pub open spec fn well_formed(&self) -> bool {
        self.cells@.len() == self.cols * self.rows
    }

    /// The cell at column `x` of row `y`; `None` outside the grid.
    pub fn cell(&self, x: u16, y: u16) -> (c: Option<&Cell>)
        ensures
            match c {
                Some(c) => x < self.cols && y < self.rows && y * self.cols + x < self.cells@.len()
                    && *c == self.cells@[y * self.cols + x],
                None => x >= self.cols || y >= self.rows || y * self.cols + x >= self.cells@.len(),
            },
            self.well_formed() ==> (c is Some <==> x < self.cols && y < self.rows),
    {
        if x >= self.cols || y >= self.rows {
            return None;
        }
        proof {
            lemma_cell_index(x as int, y as int, self.cols as int, self.rows as int);
            assert(self.cols * self.rows <= 0xffff * 0xffff) by (nonlinear_arith)
                requires
                    self.cols <= 0xffff,
                    self.rows <= 0xffff,
            ;
            assert(y * self.cols <= 0xffff * 0xffff) by (nonlinear_arith)
                requires
                    self.cols <= 0xffff,
                    y <= 0xffff,
            ;
        }
        let i: usize = y as usize * self.cols as usize + x as usize;
        if i < self.cells.len() {
            Some(&self.cells[i])
        } else {
            None
        }
    }
}

/// The cursor's shape as the terminal names it.
#[derive(Clone, Copy, Debug, PartialEq, Eq, Structural)]
pub enum CursorVisual {
    Bar,
    Block,
    Underline,
    BlockHollow,
    /// A shape this build does not know.
    Other,
}

/// The shape a cursor is drawn with; an unknown one as a block.
pub open spec fn shape_of(v: CursorVisual) -> CursorShape {
    match v {
        CursorVisual::Bar => CursorShape::Bar,
        CursorVisual::Underline => CursorShape::Underline,
        CursorVisual::BlockHollow => CursorShape::HollowBlock,
        CursorVisual::Block => CursorShape::Block,
        CursorVisual::Other => CursorShape::Block,
    }
}

/// The shape a cursor is drawn with; an unknown one as a block.
pub fn cursor_shape(v: CursorVisual) -> (s: CursorShape)
    ensures
        s == shape_of(v),
{
    match v {
        CursorVisual::Bar => CursorShape::Bar,
        CursorVisual::Underline => CursorShape::Underline,
        CursorVisual::BlockHollow => CursorShape::HollowBlock,
        CursorVisual::Block => CursorShape::Block,
        CursorVisual::Other => CursorShape::Block,
    }
}

/// What the terminal reports of one row.
pub struct RowRead {
    /// First and last selected column.
    pub selection: Option<(u16, u16)>,
    pub cells: Vec<CellRead>,
    /// The cell after the last of `cells`, or the row itself, could not be read.
    pub broken: bool,
}

/// What the terminal reports of a frame.
pub struct FrameRead<'a> {
    pub cols: u16,
    pub rows: u16,
    pub foreground: Rgb,
    pub background: Rgb,
    pub cursor: Option<Rgb>,
    pub palette: &'a [Rgb; 256],
    pub cursor_visible: bool,
    pub cursor_blinking: bool,
    pub cursor_visual: CursorVisual,
    /// Where the cursor is, if it is inside the viewport.
    pub cursor_at: Option<(u16, u16)>,
    pub lines: &'a [RowRead],
    pub bold: BoldColor,
}

/// A cell could not be read.
#[derive(Clone, Copy, Debug, PartialEq, Eq, Structural)]
pub struct CellUnreadable;

/// The colours a frame's cells are drawn with.
pub open spec fn frame_colors<'a>(f: FrameRead<'a>) -> Colors<'a> {
    Colors {
        default_fg: f.foreground,
        default_bg: f.background,
        palette: f.palette,
        bold: f.bold,
    }
}

/// Whether row `y` stops the frame: one of its visible cells cannot be read.
pub open spec fn stops(f: FrameRead<'_>, y: int) -> bool {
    f.lines@[y].broken && f.lines@[y].cells@.len() < f.cols
}

/// Whether row `y` is drawn: it is on the grid, and no row above it stops the
/// frame.
pub open spec fn drawn(f: FrameRead<'_>, y: int) -> bool {
    &&& 0 <= y < f.rows
    &&& y < f.lines@.len()
    &&& forall|k: int| 0 <= k < y ==> !#[trigger] stops(f, k)
}

/// Whether a frame can be drawn to its end.
pub open spec fn complete(f: FrameRead<'_>) -> bool {
    forall|k: int| 0 <= k < f.rows && k < f.lines@.len() ==> !#[trigger] stops(f, k)
}

/// Whether column `x` is selected.
pub open spec fn in_selection(sel: Option<(u16, u16)>, x: int) -> bool {
    match sel {
        Some((a, b)) => a <= x <= b,
        None => false,
    }
}

/// What a frame shows at column `x` of row `y`: the cell read there, or a blank
/// where none was.
pub open spec fn cell_of(f: FrameRead<'_>, x: int, y: int) -> CellView {
    if drawn(f, y) && x < f.lines@[y].cells@.len() {
        copied(f.lines@[y].cells@[x], frame_colors(f), in_selection(f.lines@[y].selection, x))
    } else {
        blank()
    }
}

/// The cells of a frame, row by row.
pub open spec fn grid(f: FrameRead<'_>) -> Seq<CellView> {
    Seq::new(
        (f.cols * f.rows) as nat,
        |i: int| cell_of(f, col_of(i, f.cols as int), row_of(i, f.cols as int)),
    )
}

/// The grid of a snapshot, by what it shows: its cells, the cursor on it and the
/// colours behind it.
#[verifier::ext_equal]
pub ghost struct GridView {
    pub cols: u16,
    pub rows: u16,
    pub cells: Seq<CellView>,
    pub cursor_at: (u16, u16),
    pub cursor_visible: bool,
    pub cursor_blinking: bool,
    pub cursor_shape: CursorShape,
    pub cursor_color: Rgb,
    pub default_fg: Rgb,
    pub default_bg: Rgb,
    pub has_blink: bool,
}

/// What the grid of a snapshot shows.
pub open spec fn grid_view(s: GridSnapshot) -> GridView {
    GridView {
        cols: s.cols,
        rows: s.rows,
        cells: shown(s.cells@),
        cursor_at: (s.cursor_x, s.cursor_y),
        cursor_visible: s.cursor_visible,
        cursor_blinking: s.cursor_blinking,
        cursor_shape: s.cursor_shape,
        cursor_color: s.cursor_color,
        default_fg: s.default_fg,
        default_bg: s.default_bg,
        has_blink: s.has_blink,
    }
}

/// Whether some cell of a frame blinks.
pub open spec fn blinks(f: FrameRead<'_>) -> bool {
    exists|i: int| 0 <= i < grid(f).len() && (#[trigger] grid(f)[i]).blink
}

/// What a frame leaves of the grid `g`. Of the old grid there stay the place of
/// the cursor, where the viewport does not hold it, and `has_blink`, where the
/// frame cannot be drawn to its end.
pub open spec fn refilled(g: GridView, f: FrameRead<'_>) -> GridView {
    GridView {
        cols: f.cols,
        rows: f.rows,
        cells: grid(f),
        cursor_at: match f.cursor_at {
            Some(at) => at,
            None => g.cursor_at,
        },
        cursor_visible: f.cursor_visible,
        cursor_blinking: f.cursor_blinking,
        cursor_shape: shape_of(f.cursor_visual),
        cursor_color: match f.cursor {
            Some(c) => c,
            None => f.foreground,
        },
        default_fg: f.foreground,
        default_bg: f.background,
        has_blink: if complete(f) {
            blinks(f)
        } else {
            g.has_blink
        },
    }
}

/// Make `cells` hold `n` blank cells, reusing the text buffers it has.
fn blank_cells(cells: &mut Vec<Cell>, n: usize)
    ensures
        shown(final(cells)@) == Seq::new(n as nat, |i: int| blank()),
{
    cells.truncate(n);
    let m: usize = cells.len();
    let mut i: usize = 0;
    while i < m
        invariant
            i <= m <= n,
            m == cells@.len(),
            forall|k: int| 0 <= k < i ==> (#[trigger] cells@[k])@ == blank(),
        decreases m - i,
    {
        let c = &mut cells[i];
        c.blank();
        i += 1;
    }
    while i < n
        invariant
            i <= n,
            i == cells@.len(),
            forall|k: int| 0 <= k < i ==> (#[trigger] cells@[k])@ == blank(),
        decreases n - i,
    {
        cells.push(Cell::default());
        i += 1;
    }
    assert(shown(cells@) =~= Seq::new(n as nat, |k: int| blank()));
}

/// Refill `out` with a frame. The placements and the row above the viewport are
/// left alone. Where a cell cannot be read the rest of the frame stays blank,
/// and `has_blink` keeps its value.
#[verifier::spinoff_prover]
#[verifier::rlimit(60)]
pub fn refill(out: &mut GridSnapshot, f: &FrameRead<'_>) -> (r: Result<(), CellUnreadable>)
    ensures
        grid_view(*final(out)) == refilled(grid_view(*old(out)), *f),
        final(out).images == old(out).images,
        final(out).over_row == old(out).over_row,
        final(out).well_formed(),
        r is Ok <==> complete(*f),
{
    out.cols = f.cols;
    out.rows = f.rows;
    out.default_fg = f.foreground;
    out.default_bg = f.background;
    out.cursor_color = match f.cursor {
        Some(c) => c,
        None => f.foreground,
    };
    out.cursor_visible = f.cursor_visible;
    out.cursor_blinking = f.cursor_blinking;
    out.cursor_shape = cursor_shape(f.cursor_visual);
    if let Some((x, y)) = f.cursor_at {
        out.cursor_x = x;
        out.cursor_y = y;
    }
    let cols: usize = f.cols as usize;
    let rows: usize = f.rows as usize;
    assert(cols * rows <= 0xffff * 0xffff) by (nonlinear_arith)
        requires
            cols <= 0xffff,
            rows <= 0xffff,
    ;
    blank_cells(&mut out.cells, cols * rows);
    proof {
        let s = shown(out.cells@);
        assert(s.len() == out.cells@.len());
        assert forall|i: int| 0 <= i < out.cells@.len() implies (#[trigger] out.cells@[i])@
            == blank() by {
            assert(s[i] == out.cells@[i]@);
        }
    }
    let colors = Colors {
        default_fg: f.foreground,
        default_bg: f.background,
        palette: f.palette,
        bold: f.bold,
    };
    let ghost g = grid(*f);
    proof {
        lemma_places(cols as int, rows as int);
    }
    let mut has_blink = false;
    let mut y: usize = 0;
    while y < rows && y < f.lines.len()
        invariant
            y <= rows,
            y <= f.lines@.len(),
            cols == f.cols,
            rows == f.rows,
            cols * rows <= 0xffff * 0xffff,
            colors == frame_colors(*f),
            out.cells@.len() == cols * rows,
            g == grid(*f),
            forall|k: int| 0 <= k < y ==> !#[trigger] stops(*f, k),
            forall|i: int|
                0 <= i < cols * rows ==> (#[trigger] out.cells@[i])@ == (if row_of(i, cols as int) < y {
                    g[i]
                } else {
                    blank()
                }),
            has_blink == exists|i: int|
                0 <= i < cols * rows && row_of(i, cols as int) < y && (#[trigger] g[i]).blink,
            out.cols == f.cols,
            out.rows == f.rows,
            out.default_fg == f.foreground,
            out.default_bg == f.background,
            out.cursor_color == (match f.cursor {
                Some(c) => c,
                None => f.foreground,
            }),
            out.cursor_visible == f.cursor_visible,
            out.cursor_blinking == f.cursor_blinking,
            out.cursor_shape == shape_of(f.cursor_visual),
            (out.cursor_x, out.cursor_y) == (match f.cursor_at {
                Some(at) => at,
                None => (old(out).cursor_x, old(out).cursor_y),
            }),
            out.images == old(out).images,
            out.over_row == old(out).over_row,
            out.has_blink == old(out).has_blink,
        decreases rows - y,
    {
        let line = &f.lines[y];
        assert(drawn(*f, y as int));
        let mut x: usize = 0;
        while x < cols && x < line.cells.len()
            invariant
                x <= cols,
                x <= line.cells@.len(),
                y < rows,
                y < f.lines@.len(),
                *line == f.lines@[y as int],
                drawn(*f, y as int),
                cols == f.cols,
                rows == f.rows,
                cols * rows <= 0xffff * 0xffff,
                colors == frame_colors(*f),
                out.cells@.len() == cols * rows,
                g == grid(*f),
                forall|i: int|
                    0 <= i < cols * rows ==> (#[trigger] out.cells@[i])@ == (if row_of(i, cols as int)
                        < y || row_of(i, cols as int) == y && col_of(i, cols as int) < x {
                        g[i]
                    } else {
                        blank()
                    }),
                has_blink == exists|i: int|
                    0 <= i < cols * rows && (row_of(i, cols as int) < y || row_of(i, cols as int)
                        == y && col_of(i, cols as int) < x) && (#[trigger] g[i]).blink,
                out.cols == f.cols,
                out.rows == f.rows,
                out.default_fg == f.foreground,
                out.default_bg == f.background,
                out.cursor_color == (match f.cursor {
                    Some(c) => c,
                    None => f.foreground,
                }),
                out.cursor_visible == f.cursor_visible,
                out.cursor_blinking == f.cursor_blinking,
                out.cursor_shape == shape_of(f.cursor_visual),
                (out.cursor_x, out.cursor_y) == (match f.cursor_at {
                    Some(at) => at,
                    None => (old(out).cursor_x, old(out).cursor_y),
                }),
                out.images == old(out).images,
                out.over_row == old(out).over_row,
                out.has_blink == old(out).has_blink,
            decreases cols - x,
        {
            proof {
                lemma_cell_index(x as int, y as int, cols as int, rows as int);
                lemma_places(cols as int, rows as int);
            }
            let i: usize = y * cols + x;
            let ghost before = out.cells@;
            assert(out.cells@[i as int]@ == blank());
            let selected = match line.selection {
                Some((a, b)) => x >= a as usize && x <= b as usize,
                None => false,
            };
            let c = &mut out.cells[i];
            c.selected = selected;
            copy_cell(&line.cells[x], &colors, c);
            let blinks = c.blink;
            assert(out.cells@[i as int]@ == g[i as int]);
            assert(out.cells@ =~= before.update(i as int, out.cells@[i as int]));
            has_blink = has_blink || blinks;
            x += 1;
        }
        if line.broken && x < cols {
            proof {
                lemma_places(cols as int, rows as int);
                assert(stops(*f, y as int));
                assert forall|i: int| 0 <= i < cols * rows implies (
                #[trigger] out.cells@[i])@ == g[i] by {
                    let (p, q) = (col_of(i, cols as int), row_of(i, cols as int));
                    assert(q > y ==> !drawn(*f, q));
                    assert(g[i] == cell_of(*f, p, q));
                }
                assert(shown(out.cells@) =~= g);
            }
            return Err(CellUnreadable);
        }
        proof {
            lemma_places(cols as int, rows as int);
            assert(!stops(*f, y as int));
            assert forall|i: int|
                0 <= i < cols * rows && row_of(i, cols as int) == y && col_of(i, cols as int)
                    >= x implies g[i] == blank() by {
                assert(g[i] == cell_of(*f, col_of(i, cols as int), y as int));
            }
        }
        y += 1;
    }
    proof {
        lemma_places(cols as int, rows as int);
        assert forall|i: int| 0 <= i < cols * rows && row_of(i, cols as int) >= y implies g[i]
            == blank() by {
            assert(!drawn(*f, row_of(i, cols as int)));
        }
        assert(shown(out.cells@) =~= g);
    }
    out.has_blink = has_blink;
    Ok(())
}

/// What the row above the viewport shows in a grid of `cols` columns: the cells
/// read, none of them selected, and blanks behind them.
pub open spec fn over_row(line: Option<RowRead>, colors: Colors<'_>, cols: nat) -> Seq<CellView> {
    Seq::new(
        cols,
        |x: int|
            match line {
                Some(r) if x < r.cells@.len() => copied(r.cells@[x], colors, false),
                _ => blank(),
            },
    )
}

/// Refill `out` with the row above the viewport.
pub fn refill_over_row(
    out: &mut Vec<Cell>,
    cols: u16,
    line: &Option<RowRead>,
    colors: &Colors<'_>,
) -> (r: Result<(), CellUnreadable>)
    ensures
        shown(final(out)@) == over_row(*line, *colors, cols as nat),
        r is Ok <==> (*line matches Some(l) ==> !l.broken || l.cells@.len() >= cols),
{
    let n: usize = cols as usize;
    blank_cells(out, n);
    let ghost blanks = Seq::new(n as nat, |i: int| blank());
    assert(shown(out@).len() == n);
    let row = match line {
        Some(row) => row,
        None => {
            assert(over_row(*line, *colors, cols as nat) =~= blanks);
            return Ok(());
        },
    };
    proof {
        assert forall|k: int| 0 <= k < n implies (#[trigger] out@[k])@ == blank() by {
            assert(shown(out@)[k] == out@[k]@);
        }
    }
    let mut x: usize = 0;
    while x < n && x < row.cells.len()
        invariant
            x <= n,
            x <= row.cells@.len(),
            n == out@.len(),
            forall|k: int| 0 <= k < x ==> (#[trigger] out@[k])@ == copied(
                row.cells@[k],
                *colors,
                false,
            ),
            forall|k: int| x <= k < n ==> (#[trigger] out@[k])@ == blank(),
        decreases n - x,
    {
        let ghost before = out@;
        assert(out@[x as int]@ == blank());
        let c = &mut out[x];
        copy_cell(&row.cells[x], colors, c);
        assert(out@ =~= before.update(x as int, out@[x as int]));
        x += 1;
    }
    assert(shown(out@) =~= over_row(*line, *colors, cols as nat));
    if row.broken && x < n {
        return Err(CellUnreadable);
    }
    Ok(())
}

/// The cell at column `x` of row `y` of a refilled grid is what the frame shows
/// there.
pub proof fn law_refilled_cell_reads_back(f: FrameRead<'_>, x: int, y: int)
    requires
        0 <= x < f.cols,
        0 <= y < f.rows,
    ensures
        0 <= y * f.cols + x < grid(f).len(),
        grid(f)[y * f.cols + x] == cell_of(f, x, y),
{
    lemma_cell_index(x, y, f.cols as int, f.rows as int);
}

/// No cell that was not read blinks, is selected or draws a background.
pub proof fn law_unread_cells_are_blank(f: FrameRead<'_>, x: int, y: int)
    requires
        !drawn(f, y) || x >= f.lines@[y].cells@.len(),
    ensures
        cell_of(f, x, y) == blank(),
        !cell_of(f, x, y).blink,
        !cell_of(f, x, y).selected,
        !cell_of(f, x, y).bg_explicit,
{
}

/// The grid last drawn to its end, held so that a terminal that did not change
/// need not be read again. It holds none before the first frame, nor after a
/// frame that could not be drawn to its end.
pub struct LastGrid {
    last: Option<GridSnapshot>,
}

impl View for LastGrid {
    type V = Option<GridView>;

    closed spec fn view(&self) -> Option<GridView> {
        match self.last {
            Some(s) => Some(grid_view(s)),
            None => None,
        }
    }
}

/// Whether the grid last drawn still stands for the terminal: nothing moved, the
/// terminal reports no change, and the size is the same.
pub open spec fn repeats(
    last: Option<GridView>,
    moved: bool,
    clean: bool,
    cols: u16,
    rows: u16,
) -> bool {
    match last {
        Some(g) => !moved && clean && g.cols == cols && g.rows == rows,
        None => false,
    }
}

/// Make the grid of `out` show what that of `from` shows. The placements and the
/// row above the viewport are left alone.
pub fn copy_grid(out: &mut GridSnapshot, from: &GridSnapshot)
    ensures
        grid_view(*final(out)) == grid_view(*from),
        final(out).images == old(out).images,
        final(out).over_row == old(out).over_row,
{
    out.cols = from.cols;
    out.rows = from.rows;
    out.cursor_x = from.cursor_x;
    out.cursor_y = from.cursor_y;
    out.cursor_visible = from.cursor_visible;
    out.cursor_blinking = from.cursor_blinking;
    out.cursor_shape = from.cursor_shape;
    out.cursor_color = from.cursor_color;
    out.default_fg = from.default_fg;
    out.default_bg = from.default_bg;
    out.has_blink = from.has_blink;
    let mut cells: Vec<Cell> = Vec::new();
    let mut i: usize = 0;
    while i < from.cells.len()
        invariant
            i <= from.cells@.len(),
            i == cells@.len(),
            forall|k: int| 0 <= k < i ==> (#[trigger] cells@[k])@ == from.cells@[k]@,
        decreases from.cells@.len() - i,
    {
        cells.push(from.cells[i].clone());
        i += 1;
    }
    assert(shown(cells@) =~= shown(from.cells@));
    out.cells = cells;
}

impl Default for LastGrid {
    /// No grid.
    fn default() -> (l: Self)
        ensures
            l@ is None,
    {
        LastGrid { last: None }
    }
}

impl LastGrid {
    /// Fill `out` with the grid last drawn, whatever `out` holds, where that
    /// grid still stands for the terminal; say whether it does. `out` is left
    /// alone where it does not.
    pub fn repeat(
        &self,
        out: &mut GridSnapshot,
        moved: bool,
        clean: bool,
        cols: u16,
        rows: u16,
    ) -> (r: bool)
        ensures
            r == repeats(self@, moved, clean, cols, rows),
            r ==> Some(grid_view(*final(out))) == self@,
            r ==> final(out).images == old(out).images,
            r ==> final(out).over_row == old(out).over_row,
            !r ==> *final(out) == *old(out),
    {
        match &self.last {
            Some(g) => {
                if !moved && clean && g.cols == cols && g.rows == rows {
                    copy_grid(out, g);
                    true
                } else {
                    false
                }
            },
            None => false,
        }
    }

    /// Refill `out` with a frame, and hold the grid if the frame could be drawn
    /// to its end. The placements and the row above the viewport are left alone.
    pub fn draw(&mut self, out: &mut GridSnapshot, f: &FrameRead<'_>) -> (r: Result<
        (),
        CellUnreadable,
    >)
        ensures
            grid_view(*final(out)) == refilled(grid_view(*old(out)), *f),
            final(out).images == old(out).images,
            final(out).over_row == old(out).over_row,
            final(out).well_formed(),
            r is Ok <==> complete(*f),
            final(self)@ == (if complete(*f) {
                Some(grid_view(*final(out)))
            } else {
                None
            }),
    {
        let r = refill(out, f);
        if r.is_ok() {
            let mut held = GridSnapshot::default();
            copy_grid(&mut held, out);
            self.last = Some(held);
        } else {
            self.last = None;
        }
        r
    }
}

/// What a snapshot leaves: the grid held after it, and the grid of the snapshot,
/// whose own grid was `g` before.
pub open spec fn snapped(
    last: Option<GridView>,
    g: GridView,
    moved: bool,
    clean: bool,
    f: FrameRead<'_>,
) -> (Option<GridView>, GridView) {
    if repeats(last, moved, clean, f.cols, f.rows) {
        (last, last->0)
    } else if complete(f) {
        (Some(refilled(g, f)), refilled(g, f))
    } else {
        (None, refilled(g, f))
    }
}

/// A frame that is not a repeat is drawn cell for cell, whatever grids were there
/// before. The grid has a cell for every place.
pub proof fn law_snapshot_is_the_frame(
    last: Option<GridView>,
    g: GridView,
    moved: bool,
    clean: bool,
    f: FrameRead<'_>,
)
    requires
        !repeats(last, moved, clean, f.cols, f.rows),
    ensures
        snapped(last, g, moved, clean, f).1.cells == grid(f),
        grid(f).len() == f.cols * f.rows,
{
    assert(f.cols * f.rows >= 0) by (nonlinear_arith);
}

/// Two snapshots with no change between them show the same: once one succeeded,
/// the next leaves the same grid, whatever it is filled into and whatever is
/// read.
pub proof fn law_unchanged_terminal_shows_the_same(
    last: Option<GridView>,
    a: GridView,
    b: GridView,
    moved: bool,
    clean: bool,
    f: FrameRead<'_>,
    again: FrameRead<'_>,
)
    requires
        repeats(last, moved, clean, f.cols, f.rows) || complete(f),
        again.cols == f.cols,
        again.rows == f.rows,
    ensures
        ({
            let (held, shows) = snapped(last, a, moved, clean, f);
            snapped(held, b, false, true, again) == (held, shows)
        }),
{
}

/// A frame that could not be drawn to its end is not repeated: the next one is
/// read anew, whether or not the terminal reports a change.
pub proof fn law_broken_frame_is_not_repeated(
    last: Option<GridView>,
    a: GridView,
    b: GridView,
    moved: bool,
    clean: bool,
    f: FrameRead<'_>,
    again: FrameRead<'_>,
)
    requires
        !repeats(last, moved, clean, f.cols, f.rows),
        !complete(f),
    ensures
        snapped(snapped(last, a, moved, clean, f).0, b, false, true, again).1 == refilled(b, again),
{
}

/// Whether row `y` of a frame was read: the terminal gave it, and every row above
/// it could be read as far as the grid is wide.
pub open spec fn row_read(f: FrameRead<'_>, y: int) -> bool {
    &&& 0 <= y < f.rows
    &&& y < f.lines@.len()
    &&& forall|k: int|
        0 <= k < y ==> !(#[trigger] f.lines@[k]).broken || f.lines@[k].cells@.len() >= f.cols
}

proof fn lemma_row_read(f: FrameRead<'_>, y: int)
    ensures
        row_read(f, y) == drawn(f, y),
{
    if row_read(f, y) {
        assert forall|k: int| 0 <= k < y implies !#[trigger] stops(f, k) by {
            assert(!f.lines@[k].broken || f.lines@[k].cells@.len() >= f.cols);
        }
    }
    if drawn(f, y) {
        assert forall|k: int| 0 <= k < y implies !(#[trigger] f.lines@[k]).broken
            || f.lines@[k].cells@.len() >= f.cols by {
            assert(!stops(f, k));
        }
    }
}

/// The selection of a row is highlighted from its first to its last column, both
/// with it, and nothing else of the row is: a cell that was read is selected
/// exactly where its column lies in the span.
pub proof fn law_selection_covers_its_span(f: FrameRead<'_>, x: int, y: int)
    requires
        row_read(f, y),
        0 <= x < f.cols,
        x < f.lines@[y].cells@.len(),
    ensures
        0 <= y * f.cols + x < grid(f).len(),
        f.lines@[y].selection is None ==> !grid(f)[y * f.cols + x].selected,
        f.lines@[y].selection matches Some(span) ==> (grid(f)[y * f.cols + x].selected <==> span.0
            <= x && x <= span.1),
{
    lemma_cell_index(x, y, f.cols as int, f.rows as int);
    lemma_row_read(f, y);
}

/// Whatever lies between two highlighted cells of a row is highlighted.
pub proof fn law_selection_has_no_holes(f: FrameRead<'_>, a: int, x: int, b: int, y: int)
    requires
        row_read(f, y),
        0 <= a <= x <= b < f.cols,
        b < f.lines@[y].cells@.len(),
        grid(f)[y * f.cols + a].selected,
        grid(f)[y * f.cols + b].selected,
    ensures
        grid(f)[y * f.cols + x].selected,
{
    law_selection_covers_its_span(f, a, y);
    law_selection_covers_its_span(f, x, y);
    law_selection_covers_its_span(f, b, y);
}

/// Each place of the grid shows the text and the attributes that were read there.
pub proof fn law_each_place_shows_its_own_cell(f: FrameRead<'_>, x: int, y: int)
    requires
        row_read(f, y),
        0 <= x < f.cols,
        x < f.lines@[y].cells@.len(),
    ensures
        ({
            let v = grid(f)[y * f.cols + x];
            let read = f.lines@[y].cells@[x];
            &&& v.text == read.text@
            &&& v.bold == read.style.bold
            &&& v.italic == read.style.italic
            &&& v.blink == read.style.blink
            &&& v.inverse == read.style.inverse
            &&& v.invisible == read.style.invisible
            &&& v.strikethrough == read.style.strikethrough
            &&& v.overline == read.style.overline
            &&& v.bg_explicit == (read.bg is Some)
            &&& !read.style.inverse && read.bg is Some ==> Some(v.bg) == read.bg
            &&& !read.style.inverse && read.bg is None ==> v.bg == f.background
        }),
{
    lemma_cell_index(x, y, f.cols as int, f.rows as int);
    lemma_row_read(f, y);
}

/// The places that were not read are empty: behind the last cell of a row, below
/// the last row, and below a row that could not be read to its end.
pub proof fn law_what_was_not_read_is_empty(f: FrameRead<'_>, x: int, y: int)
    requires
        0 <= x < f.cols,
        0 <= y < f.rows,
        y >= f.lines@.len() || x >= f.lines@[y].cells@.len() || exists|k: int|
            0 <= k < y && (#[trigger] f.lines@[k]).broken && f.lines@[k].cells@.len() < f.cols,
    ensures
        ({
            let v = grid(f)[y * f.cols + x];
            &&& v.text.len() == 0
            &&& !v.selected && !v.blink && !v.bg_explicit && !v.inverse && !v.bold
            &&& v.underline == crate::engine::UnderlineStyle::Off
        }),
{
    lemma_cell_index(x, y, f.cols as int, f.rows as int);
    lemma_row_read(f, y);
    if y < f.lines@.len() && x < f.lines@[y].cells@.len() {
        let k = choose|k: int|
            0 <= k < y && (#[trigger] f.lines@[k]).broken && f.lines@[k].cells@.len() < f.cols;
        assert(!(!f.lines@[k].broken || f.lines@[k].cells@.len() >= f.cols));
    }
}

/// A frame brings the terminal's size, colours and cursor. A cursor without a
/// colour of its own takes the foreground's; one outside the viewport leaves the
/// place it had.
pub proof fn law_frame_brings_cursor_and_colors(g: GridView, f: FrameRead<'_>)
    ensures
        ({
            let n = refilled(g, f);
            &&& n.cols == f.cols && n.rows == f.rows
            &&& n.default_fg == f.foreground && n.default_bg == f.background
            &&& f.cursor matches Some(c) ==> n.cursor_color == c
            &&& f.cursor is None ==> n.cursor_color == f.foreground
            &&& n.cursor_visible == f.cursor_visible && n.cursor_blinking == f.cursor_blinking
            &&& f.cursor_at matches Some(at) ==> n.cursor_at.0 == at.0 && n.cursor_at.1 == at.1
            &&& f.cursor_at is None ==> n.cursor_at == g.cursor_at
            &&& (n.cursor_shape == CursorShape::Bar <==> f.cursor_visual == CursorVisual::Bar)
            &&& (n.cursor_shape == CursorShape::Underline <==> f.cursor_visual
                == CursorVisual::Underline)
            &&& (n.cursor_shape == CursorShape::HollowBlock <==> f.cursor_visual
                == CursorVisual::BlockHollow)
        }),
{
}

/// A frame that could be read to its end says that something blinks exactly where
/// the style of some cell on the grid does.
pub proof fn law_blinking_is_noticed(g: GridView, f: FrameRead<'_>, x: int, y: int)
    requires
        forall|k: int|
            0 <= k < f.lines@.len() ==> !(#[trigger] f.lines@[k]).broken,
        0 <= x < f.cols,
        0 <= y < f.rows,
        y < f.lines@.len(),
        x < f.lines@[y].cells@.len(),
        f.lines@[y].cells@[x].style.blink,
    ensures
        refilled(g, f).has_blink,
{
    lemma_cell_index(x, y, f.cols as int, f.rows as int);
    assert(row_read(f, y));
    law_each_place_shows_its_own_cell(f, x, y);
    assert(grid(f)[y * f.cols + x].blink);
    assert forall|k: int| 0 <= k < f.rows && k < f.lines@.len() implies !#[trigger] stops(
        f,
        k,
    ) by {
        assert(!f.lines@[k].broken);
    }
}

/// Nothing blinks on a frame that could be read to its end and has no blinking
/// cell.
pub proof fn law_a_still_frame_is_still(g: GridView, f: FrameRead<'_>)
    requires
        forall|k: int| 0 <= k < f.lines@.len() ==> !(#[trigger] f.lines@[k]).broken,
        forall|x: int, y: int|
            0 <= y < f.lines@.len() && 0 <= x < f.lines@[y].cells@.len()
                ==> !(#[trigger] f.lines@[y].cells@[x]).style.blink,
    ensures
        !refilled(g, f).has_blink,
{
    assert forall|k: int| 0 <= k < f.rows && k < f.lines@.len() implies !#[trigger] stops(
        f,
        k,
    ) by {
        assert(!f.lines@[k].broken);
    }
    assert forall|i: int| 0 <= i < grid(f).len() implies !(#[trigger] grid(f)[i]).blink by {
        let (x, y) = (col_of(i, f.cols as int), row_of(i, f.cols as int));
        lemma_places(f.cols as int, f.rows as int);
        if drawn(f, y) && x < f.lines@[y].cells@.len() {
            assert(!f.lines@[y].cells@[x].style.blink);
        }
    }
}

/// The row above the viewport shows the cells that were read, none of them
/// selected, and nothing behind them.
pub proof fn law_over_row_shows_its_cells(line: RowRead, colors: Colors<'_>, cols: nat, x: int)
    requires
        0 <= x < cols,
    ensures
        over_row(Some(line), colors, cols).len() == cols,
        !over_row(Some(line), colors, cols)[x].selected,
        x < line.cells@.len() ==> over_row(Some(line), colors, cols)[x].text
            == line.cells@[x].text@,
        x >= line.cells@.len() ==> over_row(Some(line), colors, cols)[x].text.len() == 0,
        over_row(None, colors, cols)[x].text.len() == 0,
{
}

/// A frame is drawn to its end exactly where each of its rows on the grid could be
/// read as far as the grid is wide.
pub proof fn law_complete_frame_has_no_broken_row(f: FrameRead<'_>)
    ensures
        complete(f) <==> forall|k: int|
            0 <= k < f.rows && k < f.lines@.len() ==> !(#[trigger] f.lines@[k]).broken
                || f.lines@[k].cells@.len() >= f.cols,
{
    if complete(f) {
        assert forall|k: int| 0 <= k < f.rows && k < f.lines@.len() implies !(
        #[trigger] f.lines@[k]).broken || f.lines@[k].cells@.len() >= f.cols by {
            assert(!stops(f, k));
        }
    }
    if forall|k: int|
        0 <= k < f.rows && k < f.lines@.len() ==> !(#[trigger] f.lines@[k]).broken
            || f.lines@[k].cells@.len() >= f.cols {
        assert forall|k: int| 0 <= k < f.rows && k < f.lines@.len() implies !#[trigger] stops(
            f,
            k,
        ) by {
            assert(!f.lines@[k].broken || f.lines@[k].cells@.len() >= f.cols);
        }
    }
}

/// The grid last drawn stands for the terminal as long as nothing moved, the
/// terminal reports no change and the size is the same; any one of these draws
/// it anew, and so does having drawn none.
pub proof fn law_any_change_draws_anew(g: GridView, moved: bool, clean: bool, cols: u16, rows: u16)
    ensures
        repeats(Some(g), false, true, g.cols, g.rows),
        !repeats(Some(g), true, clean, cols, rows),
        !repeats(Some(g), moved, false, cols, rows),
        cols != g.cols ==> !repeats(Some(g), moved, clean, cols, rows),
        rows != g.rows ==> !repeats(Some(g), moved, clean, cols, rows),
        !repeats(None, moved, clean, cols, rows),
{
}

/// What is said of a grid is said of its own fields, each of the field of its
/// name, and the cursor's place is its column and its row.
pub proof fn law_grid_shows_its_fields(s: GridSnapshot)
    ensures
        grid_view(s).cols == s.cols,
        grid_view(s).rows == s.rows,
        grid_view(s).cells.len() == s.cells@.len(),
        grid_view(s).cursor_at.0 == s.cursor_x,
        grid_view(s).cursor_at.1 == s.cursor_y,
        grid_view(s).cursor_visible == s.cursor_visible,
        grid_view(s).cursor_blinking == s.cursor_blinking,
        grid_view(s).cursor_shape == s.cursor_shape,
        grid_view(s).cursor_color == s.cursor_color,
        grid_view(s).default_fg == s.default_fg,
        grid_view(s).default_bg == s.default_bg,
        grid_view(s).has_blink == s.has_blink,
{
}

/// The cells lie row by row: the one at a column and a row is the one that many
/// rows and columns behind the first.
pub proof fn law_cells_lie_row_by_row(x: int, y: int, cols: int)
    requires
        0 <= x < cols,
        0 <= y,
    ensures
        col_of(y * cols + x, cols) == x,
        row_of(y * cols + x, cols) == y,
{
    vstd::arithmetic::div_mod::lemma_fundamental_div_mod_converse(y * cols + x, cols, y, x);
}

} // verus!
