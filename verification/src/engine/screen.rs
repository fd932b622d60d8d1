//! Reading the screen as text, finding prompts, and small answers about the
//! terminal.

use crate::engine::{MouseInput, Rgb, RowText};
use vstd::prelude::*;

verus! {

/// One cell of a screen row.
pub enum CellText<'a> {
    /// The cell could not be read.
    Unreadable,
    /// Half of a wide character that another cell holds, or the gap a wide
    /// character left at the end of a row.
    Spacer,
    /// The cell's characters; empty for a blank cell.
    Cluster(&'a [char]),
}

/// One row of the screen.
pub struct ScreenRow<'a> {
    pub cells: &'a [CellText<'a>],
    /// The row continues onto the next, where that could be read.
    pub wrapped: Option<bool>,
}

/// What the cell in column `x` adds to the text of its row: each character with
/// its column. A cell that is blank or unreadable adds a space, a spacer nothing.
pub open spec fn cell_chars(c: CellText<'_>, x: int) -> Seq<(char, int)> {
    match c {
        CellText::Spacer => Seq::empty(),
        CellText::Cluster(cs) if cs@.len() > 0 => cs@.map_values(|ch: char| (ch, x)),
        _ => seq![(' ', x)],
    }
}

/// The text of a row, trailing blanks included.
pub open spec fn row_chars(cells: Seq<CellText<'_>>) -> Seq<(char, int)>
    decreases cells.len(),
{
    if cells.len() == 0 {
        Seq::empty()
    } else {
        row_chars(cells.drop_last()) + cell_chars(cells.last(), cells.len() - 1)
    }
}

/// Whether a cell holds characters.
pub open spec fn inked(c: CellText<'_>) -> bool {
    c matches CellText::Cluster(cs) && cs@.len() > 0
}

/// The cells up to and with the last that holds characters.
pub open spec fn without_trailing<'a>(cells: Seq<CellText<'a>>) -> Seq<CellText<'a>>
    decreases cells.len(),
{
    if cells.len() == 0 || inked(cells.last()) {
        cells
    } else {
        without_trailing(cells.drop_last())
    }
}

/// A row's characters paired with their columns.
pub open spec fn paired(chars: Seq<char>, cols: Seq<u16>) -> Seq<(char, int)> {
    Seq::new(chars.len(), |i: int| (chars[i], cols[i] as int))
}

/// The text of screen row `y`.
pub fn row_text(y: u32, cells: &[CellText<'_>], wrapped: bool) -> (r: RowText)
    requires
        cells@.len() <= 0x1_0000,
    ensures
        r.row == y,
        r.wrapped == wrapped,
        r.chars@.len() == r.cols@.len(),
        paired(r.chars@, r.cols@) == row_chars(without_trailing(cells@)),
{
    let mut chars: Vec<char> = Vec::new();
    let mut cols: Vec<u16> = Vec::new();
    let mut last_non_blank: usize = 0;
    let mut x: usize = 0;
    assert(cells@.take(0) =~= Seq::empty());
    assert(paired(chars@, cols@) =~= row_chars(cells@.take(0)));
    assert(paired(chars@, cols@).take(0) =~= Seq::empty());
    while x < cells.len()
        invariant
            x <= cells@.len() <= 0x1_0000,
            chars@.len() == cols@.len(),
            last_non_blank <= chars@.len(),
            paired(chars@, cols@) == row_chars(cells@.take(x as int)),
            paired(chars@, cols@).take(last_non_blank as int) == row_chars(
                without_trailing(cells@.take(x as int)),
            ),
        decreases cells@.len() - x,
    {
        let ghost text = paired(chars@, cols@);
        let ghost cell = cells@[x as int];
        let col: u16 = x as u16;
        proof {
            assert(cells@.take(x + 1).drop_last() =~= cells@.take(x as int));
        }
        match &cells[x] {
            CellText::Spacer => {
                assert(text + cell_chars(cell, x as int) =~= text);
            },
            CellText::Cluster(cs) if cs.len() > 0 => {
                let mut i: usize = 0;
                while i < cs.len()
                    invariant
                        i <= cs@.len(),
                        cell == CellText::Cluster(*cs),
                        cs@.len() > 0,
                        col == x,
                        chars@.len() == cols@.len(),
                        paired(chars@, cols@) == text + cell_chars(cell, x as int).take(i as int),
                    decreases cs@.len() - i,
                {
                    let ghost was = paired(chars@, cols@);
                    chars.push(cs[i]);
                    cols.push(col);
                    assert(paired(chars@, cols@) =~= was.push((cs@[i as int], x as int)));
                    assert(cell_chars(cell, x as int).take(i + 1) =~= cell_chars(
                        cell,
                        x as int,
                    ).take(i as int).push((cs@[i as int], x as int)));
                    i += 1;
                    assert(paired(chars@, cols@) =~= text + cell_chars(cell, x as int).take(
                        i as int,
                    ));
                }
                assert(cell_chars(cell, x as int).take(cs@.len() as int) =~= cell_chars(
                    cell,
                    x as int,
                ));
                last_non_blank = chars.len();
                assert(paired(chars@, cols@).take(last_non_blank as int) =~= paired(
                    chars@,
                    cols@,
                ));
            },
            _ => {
                chars.push(' ');
                cols.push(col);
                assert(paired(chars@, cols@) =~= text + cell_chars(cell, x as int));
                assert(paired(chars@, cols@).take(last_non_blank as int) =~= text.take(
                    last_non_blank as int,
                ));
            },
        }
        x += 1;
    }
    assert(cells@.take(cells@.len() as int) =~= cells@);
    let ghost text = paired(chars@, cols@);
    chars.truncate(last_non_blank);
    cols.truncate(last_non_blank);
    assert(paired(chars@, cols@) =~= text.take(last_non_blank as int));
    RowText { row: y, chars, cols, wrapped }
}

/// Every row of the screen as text, oldest first.
pub fn screen_text(rows: &[ScreenRow<'_>]) -> (out: Vec<RowText>)
    requires
        rows@.len() <= u32::MAX,
        forall|y: int| 0 <= y < rows@.len() ==> (#[trigger] rows@[y]).cells@.len() <= 0x1_0000,
    ensures
        out@.len() == rows@.len(),
        forall|y: int|
            0 <= y < rows@.len() ==> {
                let r = #[trigger] out@[y];
                &&& r.row == y
                &&& r.wrapped == (rows@[y].wrapped == Some(true))
                &&& r.chars@.len() == r.cols@.len()
                &&& paired(r.chars@, r.cols@) == row_chars(without_trailing(rows@[y].cells@))
            },
{
    let mut out: Vec<RowText> = Vec::new();
    let mut y: usize = 0;
    while y < rows.len()
        invariant
            y <= rows@.len() <= u32::MAX,
            out@.len() == y,
            forall|k: int|
                0 <= k < rows@.len() ==> (#[trigger] rows@[k]).cells@.len() <= 0x1_0000,
            forall|k: int|
                0 <= k < y ==> {
                    let r = #[trigger] out@[k];
                    &&& r.row == k
                    &&& r.wrapped == (rows@[k].wrapped == Some(true))
                    &&& r.chars@.len() == r.cols@.len()
                    &&& paired(r.chars@, r.cols@) == row_chars(without_trailing(rows@[k].cells@))
                },
        decreases rows@.len() - y,
    {
        let row = &rows[y];
        let wrapped = match row.wrapped {
            Some(w) => w,
            None => false,
        };
        out.push(row_text(y as u32, row.cells, wrapped));
        y += 1;
    }
    out
}

/// The prompts among rows `lo` up to `hi`.
pub open spec fn prompts(marks: Seq<bool>, lo: int, hi: int) -> nat
    decreases hi - lo,
{
    if hi <= lo {
        0
    } else {
        prompts(marks, lo, hi - 1) + if 0 <= hi - 1 < marks.len() && marks[hi - 1] {
            1nat
        } else {
            0nat
        }
    }
}

/// Whether row `y` is a prompt.
pub open spec fn marked(marks: Seq<bool>, y: int) -> bool {
    0 <= y < marks.len() && marks[y]
}

/// Row `y` is the prompt that a jump of `delta` prompts from row `top` reaches,
/// where `last` is the screen's last row.
pub open spec fn jumps_to(marks: Seq<bool>, top: int, last: int, delta: int, y: int) -> bool {
    &&& marked(marks, y)
    &&& if delta < 0 {
        0 <= y < top && prompts(marks, y, top) == -delta
    } else {
        top < y <= last && prompts(marks, top + 1, y + 1) == delta
    }
}

/// How far a screen row lies above the live bottom, in lines.
pub open spec fn above_bottom(y: int, scrollback: int) -> int {
    if y < scrollback {
        scrollback - y
    } else {
        0
    }
}

/// The screen's last row.
pub open spec fn last_row(scrollback: u32, rows: u16) -> int {
    if rows == 0 {
        scrollback as int
    } else {
        scrollback + rows - 1
    }
}

proof fn lemma_prompts_split(marks: Seq<bool>, lo: int, mid: int, hi: int)
    requires
        lo <= mid <= hi,
    ensures
        prompts(marks, lo, hi) == prompts(marks, lo, mid) + prompts(marks, mid, hi),
    decreases hi - mid,
{
    if mid < hi {
        lemma_prompts_split(marks, lo, mid, hi - 1);
    }
}

/// The prompt to jump to: the `delta`-th above (`delta < 0`) or below the
/// viewport's top row `top`, as its distance above the live bottom in lines.
/// `marks` tells which screen rows are prompts; `scrollback` is the number of
/// rows above the viewport at the live bottom, `rows` its height.
pub fn jump_to_prompt(marks: &[bool], scrollback: u32, rows: u16, top: u32, delta: isize) -> (r:
    Option<usize>)
    requires
        scrollback + rows <= u32::MAX,
    ensures
        match r {
            Some(up) => delta != 0 && exists|y: int|
                #[trigger] jumps_to(marks@, top as int, last_row(scrollback, rows), delta as int, y)
                    && up == above_bottom(y, scrollback as int),
            None => delta == 0 || forall|y: int|
                !(#[trigger] jumps_to(marks@, top as int, last_row(scrollback, rows), delta as int, y)),
        },
{
    if delta == 0 {
        return None;
    }
    let ghost end = last_row(scrollback, rows);
    let last: u32 = scrollback + if rows == 0 {
        0
    } else {
        rows as u32 - 1
    };
    let want: u64 = if delta < 0 {
        (-(delta as i128)) as u64
    } else {
        delta as u64
    };
    let mut found: u64 = 0;
    let mut y: u32 = top;
    if delta < 0 {
        while y > 0
            invariant
                y <= top,
                found < want,
                want == -delta,
                delta < 0,
                found == prompts(marks@, y as int, top as int),
                end == last_row(scrollback, rows),
                forall|k: int|
                    y <= k < top && marked(marks@, k) ==> #[trigger] prompts(marks@, k, top as int)
                        < want,
            decreases y,
        {
            y -= 1;
            proof {
                lemma_prompts_split(marks@, y as int, y + 1, top as int);
                assert(prompts(marks@, y as int, y + 1) == prompts(marks@, y as int, y as int) + if
                marked(marks@, y as int) {
                    1nat
                } else {
                    0nat
                });
            }
            if (y as usize) < marks.len() && marks[y as usize] {
                found += 1;
                if found == want {
                    assert(jumps_to(marks@, top as int, end, delta as int, y as int));
                    return Some(
                        if y < scrollback {
                            (scrollback - y) as usize
                        } else {
                            0
                        },
                    );
                }
            }
        }
        proof {
            assert forall|k: int| !(#[trigger] jumps_to(marks@, top as int, end, delta as int, k)) by {
                if 0 <= k < top && marked(marks@, k) {
                    assert(prompts(marks@, k, top as int) < want);
                }
            }
        }
    } else {
        while y < last
            invariant
                top <= y,
                top < last ==> y <= last,
                found < want,
                want == delta,
                delta > 0,
                found == prompts(marks@, top + 1, y + 1),
                end == last_row(scrollback, rows),
                last == end,
                forall|k: int|
                    top < k <= y && marked(marks@, k) ==> #[trigger] prompts(
                        marks@,
                        top + 1,
                        k + 1,
                    ) < want,
            decreases last - y,
        {
            y += 1;
            if (y as usize) < marks.len() && marks[y as usize] {
                found += 1;
                if found == want {
                    assert(jumps_to(
                        marks@,
                        top as int,
                        end,
                        delta as int,
                        y as int,
                    ));
                    return Some(
                        if y < scrollback {
                            (scrollback - y) as usize
                        } else {
                            0
                        },
                    );
                }
            }
        }
        proof {
            assert forall|k: int| !(#[trigger] jumps_to(marks@, top as int, end, delta as int, k)) by {
                if top < k <= end && marked(marks@, k) {
                    assert(prompts(marks@, top + 1, k + 1) < want);
                }
            }
        }
    }
    None
}

/// A jump has one target.
pub proof fn law_jump_target_is_unique(
    marks: Seq<bool>,
    top: int,
    last: int,
    delta: int,
    a: int,
    b: int,
)
    requires
        delta != 0,
        jumps_to(marks, top, last, delta, a),
        jumps_to(marks, top, last, delta, b),
    ensures
        a == b,
{
    if a < b {
        lemma_jump_order(marks, top, last, delta, a, b);
    } else if b < a {
        lemma_jump_order(marks, top, last, delta, b, a);
    }
}

proof fn lemma_jump_order(marks: Seq<bool>, top: int, last: int, delta: int, a: int, b: int)
    requires
        delta != 0,
        a < b,
        jumps_to(marks, top, last, delta, a),
    ensures
        !jumps_to(marks, top, last, delta, b),
{
    if !marked(marks, b) {
    } else if delta < 0 {
        if b < top {
            lemma_prompts_split(marks, a, b, top);
        }
        lemma_prompts_split(marks, a, a + 1, b);
        assert(prompts(marks, a, a + 1) == prompts(marks, a, a) + 1);
    } else {
        lemma_prompts_split(marks, top + 1, a + 1, b + 1);
        lemma_prompts_split(marks, a + 1, b, b + 1);
        assert(prompts(marks, b, b + 1) == prompts(marks, b, b) + 1);
    }
}

/// The columns of a row's text never go back, and each is a column of the row.
pub proof fn law_columns_go_forward(cells: Seq<CellText<'_>>)
    ensures
        forall|i: int| 0 <= i < row_chars(cells).len() ==> 0 <= (#[trigger] row_chars(cells)[i]).1
            < cells.len(),
        forall|i: int, j: int|
            0 <= i < j < row_chars(cells).len() ==> (#[trigger] row_chars(cells)[i]).1 <= (
            #[trigger] row_chars(cells)[j]).1,
    decreases cells.len(),
{
    if cells.len() > 0 {
        law_columns_go_forward(cells.drop_last());
        let head = row_chars(cells.drop_last());
        let tail = cell_chars(cells.last(), cells.len() - 1);
        assert forall|i: int| 0 <= i < tail.len() implies (#[trigger] tail[i]).1 == cells.len()
            - 1 by {}
        assert forall|i: int| 0 <= i < row_chars(cells).len() implies (#[trigger] row_chars(
            cells,
        )[i]) == if i < head.len() {
            head[i]
        } else {
            tail[i - head.len()]
        } by {}
    }
}

/// The text of a row ends where its last character does: the blanks behind it
/// are not part of the text.
pub proof fn law_no_trailing_blanks(cells: Seq<CellText<'_>>)
    ensures
        without_trailing(cells).len() <= cells.len(),
        without_trailing(cells) == cells.take(without_trailing(cells).len() as int),
        without_trailing(cells).len() > 0 ==> inked(without_trailing(cells).last()),
        forall|i: int| without_trailing(cells).len() <= i < cells.len() ==> !inked(
            #[trigger] cells[i],
        ),
    decreases cells.len(),
{
    if cells.len() == 0 || inked(cells.last()) {
        assert(cells.take(cells.len() as int) =~= cells);
    } else {
        law_no_trailing_blanks(cells.drop_last());
        let k = without_trailing(cells).len() as int;
        assert(cells.drop_last().take(k) =~= cells.take(k));
        assert forall|i: int| k <= i < cells.len() implies !inked(#[trigger] cells[i]) by {
            if i < cells.len() - 1 {
                assert(cells.drop_last()[i] == cells[i]);
            }
        }
    }
}

/// The characters of a text without their columns.
pub open spec fn letters(text: Seq<(char, int)>) -> Seq<char> {
    text.map_values(|p: (char, int)| p.0)
}

/// A spacer leaves no gap: the characters before and after it stay next to each
/// other.
pub proof fn law_spacer_leaves_no_gap(before: Seq<CellText<'_>>, after: Seq<CellText<'_>>)
    ensures
        letters(row_chars(before.push(CellText::Spacer) + after)) == letters(
            row_chars(before + after),
        ),
    decreases after.len(),
{
    let with = before.push(CellText::Spacer) + after;
    let without = before + after;
    if after.len() == 0 {
        assert(with.drop_last() =~= before);
        assert(without =~= before);
        assert(row_chars(with) =~= row_chars(before));
    } else {
        law_spacer_leaves_no_gap(before, after.drop_last());
        assert(with.drop_last() =~= before.push(CellText::Spacer) + after.drop_last());
        assert(without.drop_last() =~= before + after.drop_last());
        let c = after.last();
        assert(letters(cell_chars(c, with.len() - 1)) =~= letters(
            cell_chars(c, without.len() - 1),
        ));
        assert(letters(row_chars(with)) =~= letters(row_chars(with.drop_last())) + letters(
            cell_chars(c, with.len() - 1),
        ));
        assert(letters(row_chars(without)) =~= letters(row_chars(without.drop_last())) + letters(
            cell_chars(c, without.len() - 1),
        ));
    }
}

/// What OSC 133 marks a row as.
#[derive(Clone, Copy, Debug, PartialEq, Eq, Structural)]
pub enum RowPrompt {
    /// Not a prompt row.
    Unmarked,
    Prompt,
    /// A further row of a prompt.
    Continuation,
}

/// Whether the cursor's row is a prompt row; `None` where it could not be read.
pub fn cursor_at_prompt(row: Option<RowPrompt>) -> (r: Option<bool>)
    ensures
        r == (match row {
            Some(p) => Some(p != RowPrompt::Unmarked),
            None => None,
        }),
{
    match row {
        Some(RowPrompt::Unmarked) => Some(false),
        Some(_) => Some(true),
        None => None,
    }
}

/// The default foreground, background and cursor colours in effect. The first
/// two fall back to built-in ones.
pub fn dynamic_colors(fg: Option<Rgb>, bg: Option<Rgb>, cursor: Option<Rgb>) -> (r: (
    Rgb,
    Rgb,
    Option<Rgb>,
))
    ensures
        r.0 == (match fg {
            Some(c) => c,
            None => Rgb { r: 0xc5, g: 0xc8, b: 0xc6 },
        }),
        r.1 == (match bg {
            Some(c) => c,
            None => Rgb { r: 0x10, g: 0x12, b: 0x18 },
        }),
        r.2 == cursor,
{
    (
        match fg {
            Some(c) => c,
            None => Rgb::new(0xc5, 0xc8, 0xc6),
        },
        match bg {
            Some(c) => c,
            None => Rgb::new(0x10, 0x12, 0x18),
        },
        cursor,
    )
}

/// Screen and cell sizes for the mouse encoder, none of them zero.
#[derive(Clone, Copy, Debug, PartialEq, Eq, Structural)]
pub struct EncoderSize {
    pub screen_width: u32,
    pub screen_height: u32,
    pub cell_width: u32,
    pub cell_height: u32,
}

/// `x`, but at least one.
pub open spec fn at_least_one(x: u32) -> u32 {
    if x == 0 {
        1
    } else {
        x
    }
}

/// `x`, but at least one.
fn one_or(x: u32) -> (r: u32)
    ensures
        r == at_least_one(x),
{
    if x == 0 {
        1
    } else {
        x
    }
}

/// The sizes a mouse event is encoded with.
pub fn encoder_size(m: &MouseInput) -> (s: EncoderSize)
    ensures
        s.screen_width == at_least_one(m.screen_px.0),
        s.screen_height == at_least_one(m.screen_px.1),
        s.cell_width == at_least_one(m.cell_px.0),
        s.cell_height == at_least_one(m.cell_px.1),
{
    EncoderSize {
        screen_width: one_or(m.screen_px.0),
        screen_height: one_or(m.screen_px.1),
        cell_width: one_or(m.cell_px.0),
        cell_height: one_or(m.cell_px.1),
    }
}

/// The scrollback limit in bytes; `None` for no limit, spelled `usize::MAX`.
pub fn scrollback_limit(max: usize) -> (r: Option<usize>)
    ensures
        r == if max == usize::MAX {
            None
        } else {
            Some(max)
        },
{
    if max == usize::MAX {
        None
    } else {
        Some(max)
    }
}

/// The bytes a paste sends: the first `written` of `buf`, or `text` itself where
/// the encoder failed.
pub fn pasted(written: Option<usize>, mut buf: Vec<u8>, text: Vec<u8>) -> (r: Vec<u8>)
    ensures
        r@ == (match written {
            Some(n) => if n <= buf@.len() {
                buf@.take(n as int)
            } else {
                buf@
            },
            None => text@,
        }),
{
    match written {
        Some(n) => {
            buf.truncate(n);
            buf
        },
        None => text,
    }
}

/// The characters that stand in column `x`, in order.
pub open spec fn in_column(text: Seq<(char, int)>, x: int) -> Seq<(char, int)> {
    text.filter(in_place(x))
}

/// Whether a character stands in column `x`.
pub open spec fn in_place(x: int) -> spec_fn((char, int)) -> bool {
    |p: (char, int)| p.1 == x
}

proof fn lemma_column_of_cell(c: CellText<'_>, at: int, x: int)
    ensures
        in_column(cell_chars(c, at), x) == (if at == x {
            cell_chars(c, at)
        } else {
            Seq::empty()
        }),
{
    let s = cell_chars(c, at);
    assert forall|i: int| 0 <= i < s.len() implies (#[trigger] s[i]).1 == at by {}
    lemma_filter_all(s, at, x);
}

proof fn lemma_filter_all(s: Seq<(char, int)>, at: int, x: int)
    requires
        forall|i: int| 0 <= i < s.len() ==> (#[trigger] s[i]).1 == at,
    ensures
        in_column(s, x) == (if at == x {
            s
        } else {
            Seq::empty()
        }),
    decreases s.len(),
{
    reveal(Seq::filter);
    if s.len() > 0 {
        assert(s[s.len() - 1].1 == at);
        assert forall|i: int| 0 <= i < s.drop_last().len() implies (
        #[trigger] s.drop_last()[i]).1 == at by {
            assert(s[i].1 == at);
        }
        lemma_filter_all(s.drop_last(), at, x);
        assert(s.drop_last().push(s.last()) =~= s);
    } else {
        assert(in_column(s, x) =~= Seq::empty());
        assert(s =~= Seq::empty());
    }
}

/// Each cell of a row gives the text of its own column: its characters, a space
/// where it is blank or cannot be read, and nothing where it is a spacer.
pub proof fn law_each_column_reads_its_cell(cells: Seq<CellText<'_>>, x: int)
    requires
        0 <= x < cells.len(),
    ensures
        cells[x] matches CellText::Spacer ==> in_column(row_chars(cells), x).len() == 0,
        cells[x] matches CellText::Unreadable ==> in_column(row_chars(cells), x) == seq![(' ', x)],
        cells[x] matches CellText::Cluster(cs) ==> if cs@.len() == 0 {
            in_column(row_chars(cells), x) == seq![(' ', x)]
        } else {
            letters(in_column(row_chars(cells), x)) == cs@
        },
    decreases cells.len(),
{
    let head = row_chars(cells.drop_last());
    let n = cells.len() - 1;
    let tail = cell_chars(cells.last(), n);
    Seq::filter_distributes_over_add(head, tail, in_place(x));
    lemma_column_of_cell(cells.last(), n, x);
    if x < n {
        law_each_column_reads_its_cell(cells.drop_last(), x);
        assert(in_column(head, x) + Seq::<(char, int)>::empty() =~= in_column(head, x));
    } else {
        lemma_no_column(cells.drop_last(), x);
        assert(Seq::<(char, int)>::empty() + tail =~= tail);
        if let CellText::Cluster(cs) = cells[x] {
            if cs@.len() > 0 {
                assert(letters(tail) =~= cs@);
            }
        }
    }
}

proof fn lemma_no_column(cells: Seq<CellText<'_>>, x: int)
    requires
        x >= cells.len(),
    ensures
        in_column(row_chars(cells), x) == Seq::<(char, int)>::empty(),
    decreases cells.len(),
{
    if cells.len() == 0 {
        reveal(Seq::filter);
        assert(in_column(row_chars(cells), x) =~= Seq::empty());
    } else {
        let head = row_chars(cells.drop_last());
        let tail = cell_chars(cells.last(), cells.len() - 1);
        Seq::filter_distributes_over_add(head, tail, in_place(x));
        lemma_no_column(cells.drop_last(), x);
        lemma_column_of_cell(cells.last(), cells.len() - 1, x);
        assert(in_column(row_chars(cells), x) =~= Seq::empty());
    }
}

proof fn lemma_no_prompts(marks: Seq<bool>, lo: int, hi: int)
    ensures
        prompts(marks, lo, hi) == 0 <==> forall|k: int|
            lo <= k < hi ==> !(0 <= k < marks.len() && #[trigger] marks[k]),
    decreases hi - lo,
{
    if lo < hi {
        lemma_no_prompts(marks, lo, hi - 1);
        if prompts(marks, lo, hi) == 0 {
            assert forall|k: int| lo <= k < hi implies !(0 <= k < marks.len()
                && #[trigger] marks[k]) by {}
        } else if prompts(marks, lo, hi - 1) == 0 {
            assert(0 <= hi - 1 < marks.len() && marks[hi - 1]);
        }
    }
}

/// A jump of one prompt goes to the nearest prompt above or below the top row.
pub proof fn law_single_jump_is_to_the_nearest(marks: Seq<bool>, top: int, last: int, y: int)
    ensures
        jumps_to(marks, top, last, -1, y) <==> 0 <= y < top && y < marks.len() && marks[y] && forall|
            k: int,
        | y < k < top && k < marks.len() ==> !#[trigger] marks[k],
        0 <= top ==> (jumps_to(marks, top, last, 1, y) <==> top < y <= last && y < marks.len()
            && marks[y] && forall|k: int| top < k < y && k < marks.len() ==> !#[trigger] marks[k]),
{
    if 0 <= y < top && y < marks.len() && marks[y] {
        lemma_prompts_split(marks, y, y + 1, top);
        assert(prompts(marks, y, y + 1) == prompts(marks, y, y) + 1);
        lemma_no_prompts(marks, y + 1, top);
        if forall|k: int| y < k < top && k < marks.len() ==> !#[trigger] marks[k] {
            assert(prompts(marks, y + 1, top) == 0);
        }
        if prompts(marks, y + 1, top) == 0 {
            assert forall|k: int| y < k < top && k < marks.len() implies !#[trigger] marks[k] by {}
        }
    }
    if 0 <= top < y <= last && y < marks.len() && marks[y] {
        assert(prompts(marks, top + 1, y + 1) == prompts(marks, top + 1, y) + 1);
        lemma_no_prompts(marks, top + 1, y);
        if forall|k: int| top < k < y && k < marks.len() ==> !#[trigger] marks[k] {
            assert(prompts(marks, top + 1, y) == 0);
        }
        if prompts(marks, top + 1, y) == 0 {
            assert forall|k: int| top < k < y && k < marks.len() implies !#[trigger] marks[k] by {}
        }
    }
}

/// Jumps add up: a jump of some prompts and one of one more prompt the same way
/// are a jump of as many prompts in all.
pub proof fn law_jumps_add_up(marks: Seq<bool>, top: int, last: int, n: int, y: int, z: int)
    requires
        n > 0,
    ensures
        jumps_to(marks, top, last, -n, y) && jumps_to(marks, y, last, -1, z) ==> jumps_to(
            marks,
            top,
            last,
            -(n + 1),
            z,
        ),
        jumps_to(marks, top, last, n, y) && jumps_to(marks, y, last, 1, z) ==> jumps_to(
            marks,
            top,
            last,
            n + 1,
            z,
        ),
{
    if jumps_to(marks, top, last, -n, y) && jumps_to(marks, y, last, -1, z) {
        lemma_prompts_split(marks, z, y, top);
    }
    if jumps_to(marks, top, last, n, y) && jumps_to(marks, y, last, 1, z) {
        lemma_prompts_split(marks, top + 1, y + 1, z + 1);
    }
}

/// A row of the scrollback lies as far above the live bottom as there are rows of
/// scrollback from it on; a row of the live screen lies at the bottom.
pub proof fn law_distance_above_the_bottom(y: int, scrollback: int)
    ensures
        y <= scrollback ==> y + above_bottom(y, scrollback) == scrollback,
        y > scrollback ==> above_bottom(y, scrollback) == 0,
{
}

/// A size that is handed on is never zero, and any other is kept.
pub proof fn law_sizes_are_at_least_one(x: u32)
    ensures
        at_least_one(x) >= 1,
        x >= 1 ==> at_least_one(x) == x,
        at_least_one(0) == at_least_one(1),
{
}

} // verus!
