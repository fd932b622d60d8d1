//! The icon artwork: rounded rectangles on a pixel grid, and a palette.

use vstd::prelude::*;

verus! {

/// Corner radii; zero keeps a corner square.
#[derive(Clone, Copy, Debug, PartialEq, Eq, Structural)]
pub struct Corners {
    pub top_left: i32,
    pub top_right: i32,
    pub bottom_right: i32,
    pub bottom_left: i32,
}

/// Axis-aligned rounded rectangle over half-open `[x0,x1) x [y0,y1)`, y down, in
/// pixels.
#[derive(Clone, Copy, Debug, PartialEq, Eq, Structural)]
pub struct RRect {
    pub x0: i32,
    pub y0: i32,
    pub x1: i32,
    pub y1: i32,
    pub r: Corners,
}

/// `(x, y)` lies beyond the arc of radius `r` around `(cx, cy)`.
pub open spec fn beyond(x: int, y: int, cx: int, cy: int, r: int) -> bool {
    (x - cx) * (x - cx) + (y - cy) * (y - cy) > r * r
}

impl RRect {
    /// Whether the shape covers the point `(x / u, y / u)`: it is inside the
    /// rectangle and beyond none of the rounded corners.
    pub open spec fn covers(&self, x: int, y: int, u: int) -> bool {
        let (x0, y0, x1, y1) = (self.x0 * u, self.y0 * u, self.x1 * u, self.y1 * u);
        let (tl, tr) = (self.r.top_left * u, self.r.top_right * u);
        let (br, bl) = (self.r.bottom_right * u, self.r.bottom_left * u);
        &&& x0 <= x < x1
        &&& y0 <= y < y1
        &&& !(tl > 0 && x < x0 + tl && y < y0 + tl && beyond(x, y, x0 + tl, y0 + tl, tl))
        &&& !(tr > 0 && x > x1 - tr && y < y0 + tr && beyond(x, y, x1 - tr, y0 + tr, tr))
        &&& !(br > 0 && x > x1 - br && y > y1 - br && beyond(x, y, x1 - br, y1 - br, br))
        &&& !(bl > 0 && x < x0 + bl && y > y1 - bl && beyond(x, y, x0 + bl, y1 - bl, bl))
    }

    /// Whether the shape contains the point `(x / u, y / u)`.
    pub fn contains(&self, x: i64, y: i64, u: i64) -> (r: bool)
        requires
            0 < u <= i32::MAX,
        ensures
            r == self.covers(x as int, y as int, u as int),
    {
        proof {
            lemma_scaled(self.x0 as int, u as int);
            lemma_scaled(self.y0 as int, u as int);
            lemma_scaled(self.x1 as int, u as int);
            lemma_scaled(self.y1 as int, u as int);
            lemma_scaled(self.r.top_left as int, u as int);
            lemma_scaled(self.r.top_right as int, u as int);
            lemma_scaled(self.r.bottom_right as int, u as int);
            lemma_scaled(self.r.bottom_left as int, u as int);
        }
        let (x, y, u): (i128, i128, i128) = (x as i128, y as i128, u as i128);
        let (x0, y0): (i128, i128) = (self.x0 as i128 * u, self.y0 as i128 * u);
        let (x1, y1): (i128, i128) = (self.x1 as i128 * u, self.y1 as i128 * u);
        if x < x0 || x >= x1 || y < y0 || y >= y1 {
            return false;
        }
        let r: i128 = self.r.top_left as i128 * u;
        if r > 0 && x < x0 + r && y < y0 + r && outside_arc(x - (x0 + r), y - (y0 + r), r) {
            return false;
        }
        let r: i128 = self.r.top_right as i128 * u;
        if r > 0 && x > x1 - r && y < y0 + r && outside_arc(x - (x1 - r), y - (y0 + r), r) {
            return false;
        }
        let r: i128 = self.r.bottom_right as i128 * u;
        if r > 0 && x > x1 - r && y > y1 - r && outside_arc(x - (x1 - r), y - (y1 - r), r) {
            return false;
        }
        let r: i128 = self.r.bottom_left as i128 * u;
        if r > 0 && x < x0 + r && y > y1 - r && outside_arc(x - (x0 + r), y - (y1 - r), r) {
            return false;
        }
        true
    }

    /// The same shape inset by `d` on every side, the radii shrinking with it.
    pub open spec fn inner(&self, d: int) -> RRect {
        RRect {
            x0: (self.x0 + d) as i32,
            y0: (self.y0 + d) as i32,
            x1: (self.x1 - d) as i32,
            y1: (self.y1 - d) as i32,
            r: Corners {
                top_left: shrunk(self.r.top_left, d),
                top_right: shrunk(self.r.top_right, d),
                bottom_right: shrunk(self.r.bottom_right, d),
                bottom_left: shrunk(self.r.bottom_left, d),
            },
        }
    }

    /// The same shape inset by `d` on every side, the radii shrinking with it.
    pub fn inset(&self, d: i32) -> (r: RRect)
        requires
            i32::MIN <= self.x0 + d <= i32::MAX,
            i32::MIN <= self.y0 + d <= i32::MAX,
            i32::MIN <= self.x1 - d <= i32::MAX,
            i32::MIN <= self.y1 - d <= i32::MAX,
            self.r.top_left - d <= i32::MAX,
            self.r.top_right - d <= i32::MAX,
            self.r.bottom_right - d <= i32::MAX,
            self.r.bottom_left - d <= i32::MAX,
        ensures
            r == self.inner(d as int),
    {
        RRect {
            x0: self.x0 + d,
            y0: self.y0 + d,
            x1: self.x1 - d,
            y1: self.y1 - d,
            r: Corners {
                top_left: shrink(self.r.top_left, d),
                top_right: shrink(self.r.top_right, d),
                bottom_right: shrink(self.r.bottom_right, d),
                bottom_left: shrink(self.r.bottom_left, d),
            },
        }
    }
}

/// A radius made smaller by `d`, but not below zero.
pub open spec fn shrunk(r: i32, d: int) -> i32 {
    if r > d {
        (r - d) as i32
    } else {
        0
    }
}

/// A radius made smaller by `d`, but not below zero.
fn shrink(r: i32, d: i32) -> (s: i32)
    requires
        r - d <= i32::MAX,
    ensures
        s == shrunk(r, d as int),
{
    if r > d {
        r - d
    } else {
        0
    }
}

proof fn lemma_scaled(a: int, u: int)
    by (nonlinear_arith)
    requires
        i32::MIN <= a <= i32::MAX,
        0 < u <= i32::MAX,
    ensures
        -0x4000_0000_0000_0000 <= a * u <= 0x4000_0000_0000_0000,
{
}

proof fn lemma_square(d: int)
    by (nonlinear_arith)
    requires
        -0x4000_0000_0000_0000 <= d <= 0x4000_0000_0000_0000,
    ensures
        0 <= d * d <= 0x1000_0000_0000_0000_0000_0000_0000_0000,
{
}

/// A point `dx`, `dy` away from the middle of an arc lies beyond its radius `r`.
fn outside_arc(dx: i128, dy: i128, r: i128) -> (o: bool)
    requires
        0 < r <= 0x4000_0000_0000_0000,
        -r <= dx <= r,
        -r <= dy <= r,
    ensures
        o == beyond(dx as int, dy as int, 0, 0, r as int),
{
    proof {
        lemma_square(dx as int);
        lemma_square(dy as int);
        lemma_square(r as int);
    }
    dx * dx + dy * dy > r * r
}

/// The shapes of the artwork at one size.
#[derive(Clone, Copy, Debug, PartialEq, Eq, Structural)]
pub struct Layout {
    pub tile: RRect,
    pub bowl: RRect,
    pub counter: RRect,
    pub stem: RRect,
    pub tail: RRect,
    pub cursor: RRect,
}

/// The sizes [`layout`] has a table for.
pub const SIZES: [u32; 8] = [16, 20, 24, 32, 40, 48, 64, 256];

/// A rectangle with these edges and these radii, clockwise from the top left.
pub open spec fn rect(
    x0: i32,
    y0: i32,
    x1: i32,
    y1: i32,
    tl: i32,
    tr: i32,
    br: i32,
    bl: i32,
) -> RRect {
    RRect {
        x0,
        y0,
        x1,
        y1,
        r: Corners { top_left: tl, top_right: tr, bottom_right: br, bottom_left: bl },
    }
}

/// A rectangle with these edges and these radii, clockwise from the top left.
fn rr(x0: i32, y0: i32, x1: i32, y1: i32, tl: i32, tr: i32, br: i32, bl: i32) -> (r: RRect)
    ensures
        r == rect(x0, y0, x1, y1, tl, tr, br, bl),
{
    RRect {
        x0,
        y0,
        x1,
        y1,
        r: Corners { top_left: tl, top_right: tr, bottom_right: br, bottom_left: bl },
    }
}

/// A rectangle with these edges and one radius for all its corners.
fn rq(x0: i32, y0: i32, x1: i32, y1: i32, r: i32) -> (s: RRect)
    ensures
        s == rect(x0, y0, x1, y1, r, r, r, r),
{
    rr(x0, y0, x1, y1, r, r, r, r)
}

/// The geometry of one size; `None` for a size without a table.
pub open spec fn layout_of(size: u32) -> Option<Layout> {
    if size == 16 {
        Some(
            Layout {
                tile: rect(1, 1, 15, 15, 0, 0, 0, 0),
                bowl: rect(3, 4, 8, 8, 0, 0, 0, 0),
                counter: rect(4, 5, 8, 7, 0, 0, 0, 0),
                stem: rect(8, 4, 10, 11, 0, 0, 0, 0),
                tail: rect(4, 9, 10, 11, 0, 0, 0, 0),
                cursor: rect(11, 4, 13, 6, 0, 0, 0, 0),
            },
        )
    } else if size == 20 {
        Some(
            Layout {
                tile: rect(1, 1, 19, 19, 3, 3, 3, 3),
                bowl: rect(4, 5, 10, 10, 1, 0, 0, 1),
                counter: rect(5, 6, 9, 9, 0, 0, 0, 0),
                stem: rect(10, 5, 12, 14, 0, 1, 0, 0),
                tail: rect(6, 12, 12, 14, 0, 0, 0, 0),
                cursor: rect(13, 5, 15, 7, 0, 0, 0, 0),
            },
        )
    } else if size == 24 {
        Some(
            Layout {
                tile: rect(2, 2, 22, 22, 4, 4, 4, 4),
                bowl: rect(5, 6, 13, 13, 1, 0, 0, 1),
                counter: rect(7, 8, 11, 11, 0, 0, 0, 0),
                stem: rect(13, 6, 15, 17, 0, 1, 1, 0),
                tail: rect(7, 15, 15, 17, 1, 0, 1, 1),
                cursor: rect(16, 6, 18, 8, 0, 0, 0, 0),
            },
        )
    } else if size == 32 {
        Some(
            Layout {
                tile: rect(2, 2, 30, 30, 6, 6, 6, 6),
                bowl: rect(7, 9, 18, 17, 2, 0, 0, 2),
                counter: rect(9, 11, 15, 15, 1, 1, 1, 1),
                stem: rect(18, 9, 20, 23, 0, 1, 1, 0),
                tail: rect(10, 20, 20, 23, 1, 0, 1, 1),
                cursor: rect(21, 9, 24, 12, 0, 0, 0, 0),
            },
        )
    } else if size == 40 {
        Some(
            Layout {
                tile: rect(3, 3, 37, 37, 7, 7, 7, 7),
                bowl: rect(8, 11, 22, 22, 2, 0, 0, 2),
                counter: rect(11, 14, 19, 19, 1, 1, 1, 1),
                stem: rect(22, 11, 25, 29, 0, 2, 2, 0),
                tail: rect(12, 25, 25, 29, 2, 0, 2, 2),
                cursor: rect(27, 11, 31, 15, 1, 1, 1, 1),
            },
        )
    } else if size == 48 {
        Some(
            Layout {
                tile: rect(3, 3, 45, 45, 8, 8, 8, 8),
                bowl: rect(10, 13, 27, 26, 3, 0, 0, 3),
                counter: rect(14, 17, 23, 22, 1, 1, 1, 1),
                stem: rect(27, 13, 31, 34, 0, 2, 2, 0),
                tail: rect(14, 30, 31, 34, 2, 0, 2, 2),
                cursor: rect(33, 13, 38, 18, 1, 1, 1, 1),
            },
        )
    } else if size == 64 {
        Some(
            Layout {
                tile: rect(4, 4, 60, 60, 11, 11, 11, 11),
                bowl: rect(14, 17, 36, 35, 4, 0, 0, 4),
                counter: rect(19, 22, 31, 30, 2, 2, 2, 2),
                stem: rect(36, 17, 41, 46, 0, 2, 2, 0),
                tail: rect(20, 40, 41, 46, 2, 0, 2, 2),
                cursor: rect(43, 17, 50, 24, 1, 1, 1, 1),
            },
        )
    } else if size == 256 {
        Some(
            Layout {
                tile: rect(17, 17, 239, 239, 44, 44, 44, 44),
                bowl: rect(56, 71, 144, 141, 16, 0, 0, 16),
                counter: rect(76, 91, 124, 121, 8, 8, 8, 8),
                stem: rect(144, 71, 164, 184, 0, 10, 10, 0),
                tail: rect(79, 161, 164, 184, 10, 0, 10, 10),
                cursor: rect(174, 71, 200, 97, 4, 4, 4, 4),
            },
        )
    } else {
        None
    }
}

/// The geometry of one size; `None` for a size without a table.
///
/// Every edge sits on a whole pixel. Strokes are at least one pixel wide, the
/// counter and the cursor at least two by two, and the cursor's top row is the
/// bowl's. The bowl's right corners are square and lie on the stem's left edge.
/// At 16 pixels no corner is rounded.
pub fn layout(size: u32) -> (l: Option<Layout>)
    ensures
        l == layout_of(size),
{
    match size {
        16 => Some(
            Layout {
                tile: rq(1, 1, 15, 15, 0),
                bowl: rq(3, 4, 8, 8, 0),
                counter: rq(4, 5, 8, 7, 0),
                stem: rq(8, 4, 10, 11, 0),
                tail: rq(4, 9, 10, 11, 0),
                cursor: rq(11, 4, 13, 6, 0),
            },
        ),
        20 => Some(
            Layout {
                tile: rq(1, 1, 19, 19, 3),
                bowl: rr(4, 5, 10, 10, 1, 0, 0, 1),
                counter: rq(5, 6, 9, 9, 0),
                stem: rr(10, 5, 12, 14, 0, 1, 0, 0),
                tail: rq(6, 12, 12, 14, 0),
                cursor: rq(13, 5, 15, 7, 0),
            },
        ),
        24 => Some(
            Layout {
                tile: rq(2, 2, 22, 22, 4),
                bowl: rr(5, 6, 13, 13, 1, 0, 0, 1),
                counter: rq(7, 8, 11, 11, 0),
                stem: rr(13, 6, 15, 17, 0, 1, 1, 0),
                tail: rr(7, 15, 15, 17, 1, 0, 1, 1),
                cursor: rq(16, 6, 18, 8, 0),
            },
        ),
        32 => Some(
            Layout {
                tile: rq(2, 2, 30, 30, 6),
                bowl: rr(7, 9, 18, 17, 2, 0, 0, 2),
                counter: rq(9, 11, 15, 15, 1),
                stem: rr(18, 9, 20, 23, 0, 1, 1, 0),
                tail: rr(10, 20, 20, 23, 1, 0, 1, 1),
                cursor: rq(21, 9, 24, 12, 0),
            },
        ),
        40 => Some(
            Layout {
                tile: rq(3, 3, 37, 37, 7),
                bowl: rr(8, 11, 22, 22, 2, 0, 0, 2),
                counter: rq(11, 14, 19, 19, 1),
                stem: rr(22, 11, 25, 29, 0, 2, 2, 0),
                tail: rr(12, 25, 25, 29, 2, 0, 2, 2),
                cursor: rq(27, 11, 31, 15, 1),
            },
        ),
        48 => Some(
            Layout {
                tile: rq(3, 3, 45, 45, 8),
                bowl: rr(10, 13, 27, 26, 3, 0, 0, 3),
                counter: rq(14, 17, 23, 22, 1),
                stem: rr(27, 13, 31, 34, 0, 2, 2, 0),
                tail: rr(14, 30, 31, 34, 2, 0, 2, 2),
                cursor: rq(33, 13, 38, 18, 1),
            },
        ),
        64 => Some(
            Layout {
                tile: rq(4, 4, 60, 60, 11),
                bowl: rr(14, 17, 36, 35, 4, 0, 0, 4),
                counter: rq(19, 22, 31, 30, 2),
                stem: rr(36, 17, 41, 46, 0, 2, 2, 0),
                tail: rr(20, 40, 41, 46, 2, 0, 2, 2),
                cursor: rq(43, 17, 50, 24, 1),
            },
        ),
        256 => Some(
            Layout {
                tile: rq(17, 17, 239, 239, 44),
                bowl: rr(56, 71, 144, 141, 16, 0, 0, 16),
                counter: rq(76, 91, 124, 121, 8),
                stem: rr(144, 71, 164, 184, 0, 10, 10, 0),
                tail: rr(79, 161, 164, 184, 10, 0, 10, 10),
                cursor: rq(174, 71, 200, 97, 4),
            },
        ),
        _ => None,
    }
}

/// Whether a shape has an inside and lies on a grid of `size` by `size` pixels.
pub open spec fn on_grid(r: RRect, size: u32) -> bool {
    &&& 0 <= r.x0 < r.x1 <= size
    &&& 0 <= r.y0 < r.y1 <= size
}

/// Whether no corner of a shape is rounded.
pub open spec fn square(r: RRect) -> bool {
    r.r == Corners { top_left: 0, top_right: 0, bottom_right: 0, bottom_left: 0 }
}

/// The tables keep the drawing rules: every shape lies on the grid, the counter
/// inside the bowl, the bowl's square right corners on the stem's left edge, the
/// cursor level with the bowl and clear of the stem, nothing is too thin to
/// show, and at 16 pixels there are no arcs.
pub proof fn law_tables_keep_the_drawing_rules(size: u32)
    requires
        layout_of(size) is Some,
    ensures
        ({
            let l = layout_of(size)->0;
            &&& on_grid(l.tile, size)
            &&& on_grid(l.bowl, size)
            &&& on_grid(l.counter, size)
            &&& on_grid(l.stem, size)
            &&& on_grid(l.tail, size)
            &&& on_grid(l.cursor, size)
            &&& l.bowl.x0 < l.counter.x0
            &&& l.counter.x1 <= l.bowl.x1
            &&& l.bowl.y0 < l.counter.y0
            &&& l.counter.y1 < l.bowl.y1
            &&& l.counter.x1 - l.counter.x0 >= 2
            &&& l.counter.y1 - l.counter.y0 >= 2
            &&& l.bowl.r.top_right == 0
            &&& l.bowl.r.bottom_right == 0
            &&& l.bowl.x1 == l.stem.x0
            &&& l.stem.y0 == l.bowl.y0
            &&& l.bowl.y1 <= l.stem.y1
            &&& l.tail.x1 == l.stem.x1
            &&& l.tail.y1 == l.stem.y1
            &&& l.cursor.y0 == l.bowl.y0
            &&& l.cursor.x0 > l.stem.x1
            &&& l.cursor.x1 - l.cursor.x0 >= 2
            &&& l.cursor.y1 - l.cursor.y0 >= 2
            &&& l.tile.x0 < l.bowl.x0
            &&& l.cursor.x1 < l.tile.x1
            &&& l.tile.y0 < l.bowl.y0
            &&& l.stem.y1 < l.tile.y1
            &&& size == 16 ==> square(l.tile) && square(l.bowl) && square(l.counter) && square(
                l.stem,
            ) && square(l.tail) && square(l.cursor)
        }),
{
}

/// A size has a table exactly if it is listed.
pub proof fn law_listed_sizes_have_tables(size: u32)
    ensures
        layout_of(size) is Some <==> SIZES@.contains(size),
{
    let s = SIZES@;
    assert(s[0] == 16 && s[1] == 20 && s[2] == 24 && s[3] == 32 && s[4] == 40 && s[5] == 48 && s[6]
        == 64 && s[7] == 256);
}

/// The colours an icon is drawn in.
#[derive(Clone, Debug, PartialEq, Eq, Hash)]
pub struct Palette {
    /// Gradient stops of the tile, bottom first. One stop is a flat tile.
    pub tile: Vec<[u8; 3]>,
    /// Opacity of the tile.
    pub tile_alpha: u8,
    pub glyph: [u8; 3],
    pub cursor: [u8; 3],
    /// A rim around the tile.
    pub rim: Option<[u8; 3]>,
}

/// The tile colour of the official icon.
pub open spec fn official_tile() -> [u8; 3] {
    [0x10, 0x18, 0x24]
}

impl Palette {
    /// The palette of the shipped icon.
    pub fn official() -> (p: Self)
        ensures
            p.tile@ == seq![official_tile()],
            p.tile_alpha == 255,
            p.glyph == [0xE6u8, 0xE8, 0xEB],
            p.cursor == [0x6Cu8, 0x8B, 0xFF],
            p.rim is None,
    {
        Palette {
            tile: vec![[0x10, 0x18, 0x24]],
            tile_alpha: 255,
            glyph: [0xE6, 0xE8, 0xEB],
            cursor: [0x6C, 0x8B, 0xFF],
            rim: None,
        }
    }

    /// The one colour of a flat tile; `None` for a gradient. A palette without
    /// stops takes the official tile.
    pub fn flat_tile(&self) -> (c: Option<[u8; 3]>)
        ensures
            c == (if self.tile@.len() == 0 {
                Some(official_tile())
            } else if self.tile@.len() == 1 {
                Some(self.tile@[0])
            } else {
                None
            }),
    {
        if self.tile.len() == 0 {
            Some([0x10, 0x18, 0x24])
        } else if self.tile.len() == 1 {
            Some(self.tile[0])
        } else {
            None
        }
    }
}

/// What a sample falls on.
pub ghost enum Fill {
    Cursor,
    Glyph,
    Rim,
    Tile,
    Nothing,
}

/// The width of the rim: one pixel at the smallest sizes, eight at the largest.
pub open spec fn rim_width(size: u32) -> int {
    let w = (size + 16) / 32;
    if w < 1 {
        1
    } else {
        w
    }
}

/// What the sample at `(x / u, y / u)` falls on, the topmost shape first.
pub open spec fn fill_at(l: Layout, rim_w: int, has_rim: bool, x: int, y: int, u: int) -> Fill {
    if l.cursor.covers(x, y, u) {
        Fill::Cursor
    } else if l.bowl.covers(x, y, u) && !l.counter.covers(x, y, u) || l.stem.covers(x, y, u)
        || l.tail.covers(x, y, u) {
        Fill::Glyph
    } else if !l.tile.covers(x, y, u) {
        Fill::Nothing
    } else if has_rim && !l.tile.inner(rim_w).covers(x, y, u) {
        Fill::Rim
    } else {
        Fill::Tile
    }
}

/// How much a sample counts: its opacity.
pub open spec fn weight(f: Fill, tile_alpha: u8) -> int {
    match f {
        Fill::Nothing => 0,
        Fill::Tile => tile_alpha as int,
        _ => 255,
    }
}

/// The colour of a sample.
pub open spec fn tint(f: Fill, pal: Palette, tile: [u8; 3]) -> [u8; 3] {
    match f {
        Fill::Cursor => pal.cursor,
        Fill::Glyph => pal.glyph,
        Fill::Rim => pal.rim->0,
        _ => tile,
    }
}

/// One pixel to be drawn, with everything its colour depends on.
pub ghost struct Spot {
    pub l: Layout,
    pub pal: Palette,
    pub rim_w: int,
    /// The tile's colour in this row.
    pub tile: [u8; 3],
    /// Samples per side.
    pub ss: int,
    pub px: int,
    pub py: int,
}

impl Spot {
    /// What the sample in column `sx` and row `sy` of this pixel falls on.
    pub open spec fn fill(self, sx: int, sy: int) -> Fill {
        let u = 2 * self.ss;
        fill_at(
            self.l,
            self.rim_w,
            self.pal.rim is Some,
            self.px * u + 2 * sx + 1,
            self.py * u + 2 * sy + 1,
            u,
        )
    }

    /// What one sample adds to the sum of channel `c`, or to the sum of weights
    /// where there is no such channel.
    pub open spec fn part(self, c: int, sx: int, sy: int) -> int {
        let f = self.fill(sx, sy);
        let w = weight(f, self.pal.tile_alpha);
        if 0 <= c < 3 {
            tint(f, self.pal, self.tile)[c] * w
        } else {
            w
        }
    }

    /// The sum over the first `n` samples of sample row `sy`.
    pub open spec fn row_sum(self, c: int, sy: int, n: int) -> int
        decreases n,
    {
        if n <= 0 {
            0
        } else {
            self.row_sum(c, sy, n - 1) + self.part(c, n - 1, sy)
        }
    }

    /// The sum over the first `m` sample rows.
    pub open spec fn sum(self, c: int, m: int) -> int
        decreases m,
    {
        if m <= 0 {
            0
        } else {
            self.sum(c, m - 1) + self.row_sum(c, m - 1, self.ss)
        }
    }

    /// The sum of the samples' weights.
    pub open spec fn weights(self) -> int {
        self.sum(3, self.ss)
    }

    /// Channel `c` of the pixel: red, green, blue, alpha.
    pub open spec fn channel(self, c: int) -> int {
        if self.weights() == 0 {
            0
        } else if c < 3 {
            mean(self.sum(c, self.ss), self.weights())
        } else {
            coverage(self.weights(), self.ss * self.ss * 255)
        }
    }
}

/// The mean of colours that sum to `acc` under weights that sum to `w`.
pub open spec fn mean(acc: int, w: int) -> int {
    (acc + (w / 255 / 2) * 255) / w
}

/// Weights that sum to `w` out of `total`, as an opacity.
pub open spec fn coverage(w: int, total: int) -> int {
    (w * 255 + total / 2) / total
}

/// The picture at one size, row by row. `tiles` holds the tile's colour in each
/// row of pixels.
pub open spec fn picture(size: u32, pal: Palette, tiles: Seq<[u8; 3]>, ss: int) -> Option<
    Seq<u8>,
> {
    match layout_of(size) {
        Some(l) => Some(
            Seq::new(
                (size * size * 4) as nat,
                |i: int|
                    (Spot {
                        l,
                        pal,
                        rim_w: rim_width(size),
                        tile: tiles[i / 4 / (size as int)],
                        ss,
                        px: i / 4 % (size as int),
                        py: i / 4 / (size as int),
                    }).channel(i % 4) as u8,
            ),
        ),
        None => None,
    }
}

proof fn lemma_layout_bounded(size: u32)
    requires
        layout_of(size) is Some,
    ensures
        16 <= size <= 256,
        1 <= rim_width(size) <= 8,
        on_grid((layout_of(size)->0).tile, size),
        (layout_of(size)->0).tile.r.top_left <= 44,
        (layout_of(size)->0).tile.r.top_right <= 44,
        (layout_of(size)->0).tile.r.bottom_right <= 44,
        (layout_of(size)->0).tile.r.bottom_left <= 44,
{
}

/// What one sample adds is never negative, and to a colour no more than 255 times
/// its weight.
proof fn lemma_part_bounded(s: Spot, c: int, sx: int, sy: int)
    ensures
        0 <= s.part(c, sx, sy),
        !(0 <= c < 3) ==> s.part(c, sx, sy) <= 255,
        0 <= c < 3 && s.part(3, sx, sy) == 0 ==> s.part(c, sx, sy) == 0,
        0 <= c < 3 ==> s.part(c, sx, sy) <= 255 * s.part(3, sx, sy),
{
    let f = s.fill(sx, sy);
    let w = weight(f, s.pal.tile_alpha);
    if 0 <= c < 3 {
        let t = tint(f, s.pal, s.tile)[c] as int;
        assert(0 <= t * w <= 255 * w && 255 * w <= 255 * 255) by (nonlinear_arith)
            requires
                0 <= t <= 255,
                0 <= w <= 255,
        ;
    }
}

proof fn lemma_row_sum_bounded(s: Spot, c: int, sy: int, n: int)
    requires
        0 <= n,
    ensures
        0 <= s.row_sum(3, sy, n) <= 255 * n,
        0 <= c < 3 ==> 0 <= s.row_sum(c, sy, n) <= 255 * s.row_sum(3, sy, n),
    decreases n,
{
    if n > 0 {
        lemma_row_sum_bounded(s, c, sy, n - 1);
        lemma_part_bounded(s, c, n - 1, sy);
        lemma_part_bounded(s, 3, n - 1, sy);
    }
}

proof fn lemma_sum_bounded(s: Spot, c: int, m: int)
    requires
        0 <= m,
        0 <= s.ss,
    ensures
        0 <= s.sum(3, m) <= 255 * (s.ss * m),
        0 <= c < 3 ==> 0 <= s.sum(c, m) <= 255 * s.sum(3, m),
    decreases m,
{
    if m > 0 {
        lemma_sum_bounded(s, c, m - 1);
        lemma_row_sum_bounded(s, c, m - 1, s.ss);
        assert(s.ss * (m - 1) + s.ss == s.ss * m) by (nonlinear_arith);
    } else {
        assert(s.ss * m == 0) by (nonlinear_arith)
            requires
                m == 0,
        ;
    }
}

/// A mean of colours is a colour.
proof fn lemma_mean_is_colour(acc: int, w: int)
    requires
        0 < w,
        0 <= acc <= 255 * w,
    ensures
        0 <= mean(acc, w) <= 255,
{
    let half = (w / 255 / 2) * 255;
    assert(0 <= half && 2 * half <= w);
    vstd::arithmetic::div_mod::lemma_div_pos_is_pos(acc + half, w);
    assert(acc + half < 256 * w);
    assert((acc + half) / w < 256) by (nonlinear_arith)
        requires
            acc + half < 256 * w,
            0 < w,
    ;
}

/// A share of the whole is an opacity.
proof fn lemma_coverage_is_opacity(w: int, total: int)
    requires
        0 < total,
        0 <= w <= total,
    ensures
        0 <= coverage(w, total) <= 255,
{
    vstd::arithmetic::div_mod::lemma_div_pos_is_pos(w * 255 + total / 2, total);
    assert((w * 255 + total / 2) / total < 256) by (nonlinear_arith)
        requires
            w * 255 + total / 2 < 256 * total,
            0 < total,
    ;
}

/// The fill of one sample: its colour and its weight.
fn sample(l: &Layout, inner: &RRect, pal: &Palette, tile: [u8; 3], x: i64, y: i64, u: i64) -> (r: (
    [u8; 3],
    u64,
))
    requires
        0 < u <= i32::MAX,
    ensures
        forall|rim_w: int|
            #![trigger l.tile.inner(rim_w)]
            *inner == l.tile.inner(rim_w) ==> {
                let f = fill_at(*l, rim_w, pal.rim is Some, x as int, y as int, u as int);
                &&& r.1 == weight(f, pal.tile_alpha)
                &&& f != Fill::Nothing ==> r.0 == tint(f, *pal, tile)
            },
{
    if l.cursor.contains(x, y, u) {
        return (pal.cursor, 255);
    }
    if (l.bowl.contains(x, y, u) && !l.counter.contains(x, y, u)) || l.stem.contains(x, y, u)
        || l.tail.contains(x, y, u) {
        return (pal.glyph, 255);
    }
    if !l.tile.contains(x, y, u) {
        return (tile, 0);
    }
    if let Some(rim) = pal.rim {
        if !inner.contains(x, y, u) {
            return (rim, 255);
        }
    }
    (tile, pal.tile_alpha as u64)
}

/// The four bytes of one pixel.
#[verifier::spinoff_prover]
#[verifier::rlimit(60)]
fn shade(
    l: &Layout,
    inner: &RRect,
    pal: &Palette,
    tile: [u8; 3],
    ss: u32,
    px: u32,
    py: u32,
    Ghost(s): Ghost<Spot>,
) -> (r: [u8; 4])
    requires
        0 < ss <= 0xffff,
        px < 256,
        py < 256,
        s.l == *l,
        s.pal == *pal,
        s.tile == tile,
        s.ss == ss,
        s.px == px,
        s.py == py,
        *inner == l.tile.inner(s.rim_w),
    ensures
        forall|c: int| 0 <= c < 4 ==> #[trigger] r@[c] == s.channel(c),
{
    let u: i64 = 2 * ss as i64;
    let mut wsum: u64 = 0;
    let mut red: u64 = 0;
    let mut green: u64 = 0;
    let mut blue: u64 = 0;
    let mut sy: u32 = 0;
    while sy < ss
        invariant
            0 < ss <= 0xffff,
            sy <= ss,
            u == 2 * ss,
            px < 256,
            py < 256,
            s.l == *l,
            s.pal == *pal,
            s.tile == tile,
            s.ss == ss,
            s.px == px,
            s.py == py,
            *inner == l.tile.inner(s.rim_w),
            wsum == s.sum(3, sy as int),
            red == s.sum(0, sy as int),
            green == s.sum(1, sy as int),
            blue == s.sum(2, sy as int),
        decreases ss - sy,
    {
        let mut sx: u32 = 0;
        proof {
            lemma_spot_position(py as int, sy as int, ss as int);
        }
        let y: i64 = py as i64 * u + 2 * sy as i64 + 1;
        proof {
            lemma_sum_bounded(s, 0, sy as int);
            lemma_sum_bounded(s, 1, sy as int);
            lemma_sum_bounded(s, 2, sy as int);
            assert(s.ss * sy <= 0xffff * 0xffff) by (nonlinear_arith)
                requires
                    0 <= s.ss <= 0xffff,
                    0 <= sy <= 0xffff,
            ;
        }
        while sx < ss
            invariant
                0 < ss <= 0xffff,
                sy < ss,
                sx <= ss,
                u == 2 * ss,
                px < 256,
                py < 256,
                y == py * u + 2 * sy + 1,
                0 <= y <= 0x400_0000,
                s.l == *l,
                s.pal == *pal,
                s.tile == tile,
                s.ss == ss,
                s.px == px,
                s.py == py,
                *inner == l.tile.inner(s.rim_w),
                0 <= s.sum(3, sy as int) <= 255 * (0xffff * 0xffff),
                0 <= s.sum(0, sy as int) <= 255 * (255 * (0xffff * 0xffff)),
                0 <= s.sum(1, sy as int) <= 255 * (255 * (0xffff * 0xffff)),
                0 <= s.sum(2, sy as int) <= 255 * (255 * (0xffff * 0xffff)),
                wsum == s.sum(3, sy as int) + s.row_sum(3, sy as int, sx as int),
                red == s.sum(0, sy as int) + s.row_sum(0, sy as int, sx as int),
                green == s.sum(1, sy as int) + s.row_sum(1, sy as int, sx as int),
                blue == s.sum(2, sy as int) + s.row_sum(2, sy as int, sx as int),
            decreases ss - sx,
        {
            proof {
                lemma_spot_position(px as int, sx as int, ss as int);
                lemma_row_sum_bounded(s, 0, sy as int, sx as int);
                lemma_row_sum_bounded(s, 1, sy as int, sx as int);
                lemma_row_sum_bounded(s, 2, sy as int, sx as int);
                lemma_part_bounded(s, 0, sx as int, sy as int);
                lemma_part_bounded(s, 1, sx as int, sy as int);
                lemma_part_bounded(s, 2, sx as int, sy as int);
                lemma_part_bounded(s, 3, sx as int, sy as int);
            }
            let x: i64 = px as i64 * u + 2 * sx as i64 + 1;
            let (c, w) = sample(l, inner, pal, tile, x, y, u);
            proof {
                let f = s.fill(sx as int, sy as int);
                assert(w == s.part(3, sx as int, sy as int));
                lemma_tinted(s, c, w as int, sx as int, sy as int);
            }
            wsum += w;
            red += c[0] as u64 * w;
            green += c[1] as u64 * w;
            blue += c[2] as u64 * w;
            sx += 1;
        }
        sy += 1;
    }
    proof {
        lemma_sum_bounded(s, 0, ss as int);
        lemma_sum_bounded(s, 1, ss as int);
        lemma_sum_bounded(s, 2, ss as int);
        assert(0 < ss * ss <= 0xffff * 0xffff) by (nonlinear_arith)
            requires
                0 < ss <= 0xffff,
        ;
    }
    if wsum == 0 {
        return [0, 0, 0, 0];
    }
    let half: u64 = (wsum / 255 / 2) * 255;
    let total: u64 = ss as u64 * ss as u64 * 255;
    proof {
        lemma_mean_is_colour(red as int, wsum as int);
        lemma_mean_is_colour(green as int, wsum as int);
        lemma_mean_is_colour(blue as int, wsum as int);
        lemma_coverage_is_opacity(wsum as int, total as int);
    }
    let r: [u8; 4] = [
        ((red + half) / wsum) as u8,
        ((green + half) / wsum) as u8,
        ((blue + half) / wsum) as u8,
        ((wsum * 255 + total / 2) / total) as u8,
    ];
    assert(r@[0] == s.channel(0) && r@[1] == s.channel(1) && r@[2] == s.channel(2) && r@[3]
        == s.channel(3));
    r
}

/// A sample's place within the grid of samples.
proof fn lemma_spot_position(p: int, k: int, ss: int)
    by (nonlinear_arith)
    requires
        0 <= p < 256,
        0 <= k < ss,
        0 < ss <= 0xffff,
    ensures
        0 <= p * (2 * ss) + 2 * k + 1 <= 0x400_0000,
        0 <= p * (2 * ss) <= 0x400_0000,
{
}

/// A sample's colour times its weight is what it adds to each channel.
proof fn lemma_tinted(s: Spot, c: [u8; 3], w: int, sx: int, sy: int)
    requires
        w == weight(s.fill(sx, sy), s.pal.tile_alpha),
        s.fill(sx, sy) != Fill::Nothing ==> c == tint(s.fill(sx, sy), s.pal, s.tile),
    ensures
        c[0] * w == s.part(0, sx, sy),
        c[1] * w == s.part(1, sx, sy),
        c[2] * w == s.part(2, sx, sy),
{
    if s.fill(sx, sy) == Fill::Nothing {
        let t = tint(s.fill(sx, sy), s.pal, s.tile);
        assert(c[0] * w == 0 && c[1] * w == 0 && c[2] * w == 0 && t[0] * w == 0 && t[1] * w == 0
            && t[2] * w == 0) by (nonlinear_arith)
            requires
                w == 0,
        ;
    }
}

/// Render one size to straight-alpha RGBA8 with `ss` by `ss` samples per pixel
/// (at least one). `tiles` holds the tile's colour in each row of pixels. `None`
/// for a size without a table.
#[verifier::spinoff_prover]
pub fn render(size: u32, pal: &Palette, tiles: &[[u8; 3]], ss: u32) -> (out: Option<Vec<u8>>)
    requires
        ss <= 0xffff,
        layout_of(size) is Some ==> tiles@.len() >= size,
    ensures
        match out {
            Some(v) => picture(size, *pal, tiles@, if ss == 0 {
                1
            } else {
                ss as int
            }) == Some(v@),
            None => layout_of(size) is None,
        },
{
    let l = match layout(size) {
        Some(l) => l,
        None => {
            return None;
        },
    };
    let ss: u32 = if ss == 0 {
        1
    } else {
        ss
    };
    proof {
        lemma_layout_bounded(size);
        assert(size * size <= 0x1_0000) by (nonlinear_arith)
            requires
                size <= 256,
        ;
    }
    let w: u32 = (size + 16) / 32;
    let rim_w: i32 = if w < 1 {
        1
    } else {
        w as i32
    };
    let inner = l.tile.inset(rim_w);
    let ghost want = picture(size, *pal, tiles@, ss as int)->0;
    let mut out: Vec<u8> = Vec::with_capacity((size * size * 4) as usize);
    let mut py: u32 = 0;
    while py < size
        invariant
            py <= size <= 256,
            0 < size,
            0 < ss <= 0xffff,
            tiles@.len() >= size,
            layout_of(size) == Some(l),
            rim_w == rim_width(size),
            inner == l.tile.inner(rim_w as int),
            want == picture(size, *pal, tiles@, ss as int)->0,
            out@.len() == 4 * (py * size),
            want.len() == 4 * (size * size),
            forall|i: int| 0 <= i < out@.len() ==> #[trigger] out@[i] == want[i],
        decreases size - py,
    {
        let mut px: u32 = 0;
        while px < size
            invariant
                py < size <= 256,
                px <= size,
                0 < ss <= 0xffff,
                tiles@.len() >= size,
                layout_of(size) == Some(l),
                rim_w == rim_width(size),
                inner == l.tile.inner(rim_w as int),
                want == picture(size, *pal, tiles@, ss as int)->0,
                out@.len() == 4 * (py * size + px),
                want.len() == 4 * (size * size),
                forall|i: int| 0 <= i < out@.len() ==> #[trigger] out@[i] == want[i],
            decreases size - px,
        {
            let ghost s = Spot {
                l,
                pal: *pal,
                rim_w: rim_w as int,
                tile: tiles@[py as int],
                ss: ss as int,
                px: px as int,
                py: py as int,
            };
            let c = shade(&l, &inner, pal, tiles[py as usize], ss, px, py, Ghost(s));
            let ghost n = out@.len() as int;
            proof {
                lemma_pixel_place(px as int, py as int, size as int);
            }
            out.push(c[0]);
            out.push(c[1]);
            out.push(c[2]);
            out.push(c[3]);
            proof {
                assert forall|k: int| 0 <= k < 4 implies #[trigger] want[n + k] == c@[k] by {
                    assert((n + k) / 4 == py * size + px);
                    assert((n + k) % 4 == k);
                }
                assert(want[n + 0] == c@[0] && want[n + 1] == c@[1] && want[n + 2] == c@[2]
                    && want[n + 3] == c@[3]);
            }
            px += 1;
        }
        assert(py * size + size == (py + 1) * size) by (nonlinear_arith);
        py += 1;
    }
    assert(out@ =~= want);
    Some(out)
}

/// The place of a pixel tells its column and its row.
proof fn lemma_pixel_place(px: int, py: int, size: int)
    requires
        0 <= px < size,
        0 <= py < size,
    ensures
        0 <= py * size + px < size * size,
        (py * size + px) / size == py,
        (py * size + px) % size == px,
{
    assert(0 <= py * size + px < size * size) by (nonlinear_arith)
        requires
            0 <= px < size,
            0 <= py < size,
    ;
    vstd::arithmetic::div_mod::lemma_fundamental_div_mod_converse(py * size + px, size, py, px);
}

/// A pixel whose samples all have one colour has exactly that colour.
pub proof fn law_one_colour_is_kept(colour: int, w: int)
    requires
        0 < w,
        0 <= colour <= 255,
    ensures
        mean(colour * w, w) == colour,
{
    let half = (w / 255 / 2) * 255;
    assert(0 <= half < w);
    vstd::arithmetic::div_mod::lemma_fundamental_div_mod_converse(
        colour * w + half,
        w,
        colour,
        half,
    );
}

/// A pixel covered by opaque samples alone is opaque, and a pixel on a tile of
/// opacity `a` alone has that opacity.
pub proof fn law_full_cover_keeps_opacity(a: int, samples: int)
    requires
        0 < samples,
        0 <= a <= 255,
    ensures
        coverage(a * samples, samples * 255) == a,
{
    let total = samples * 255;
    let rest = total / 2;
    assert((a * samples) * 255 + rest == a * total + rest) by (nonlinear_arith)
        requires
            total == samples * 255,
    ;
    vstd::arithmetic::div_mod::lemma_fundamental_div_mod_converse(
        (a * samples) * 255 + rest,
        total,
        a,
        rest,
    );
}

/// A pixel that no shape touches is empty in every channel.
pub proof fn law_uncovered_pixel_is_empty(s: Spot, c: int)
    requires
        s.weights() == 0,
    ensures
        s.channel(c) == 0,
{
}

/// Whether a shape keeps clear of the rounded corners of a tile that holds it.
pub open spec fn clear_of_corners(r: RRect, tile: RRect) -> bool {
    &&& tile.x0 <= r.x0
    &&& r.x1 <= tile.x1
    &&& tile.y0 + tile.r.top_left <= r.y0
    &&& tile.y0 + tile.r.top_right <= r.y0
    &&& r.y1 <= tile.y1 - tile.r.bottom_right
    &&& r.y1 <= tile.y1 - tile.r.bottom_left
    &&& tile.y0 <= r.y0
    &&& r.y1 <= tile.y1
}

proof fn lemma_letter_clear_of_corners(size: u32)
    requires
        layout_of(size) is Some,
    ensures
        ({
            let l = layout_of(size)->0;
            &&& clear_of_corners(l.bowl, l.tile)
            &&& clear_of_corners(l.stem, l.tile)
            &&& clear_of_corners(l.tail, l.tile)
            &&& clear_of_corners(l.cursor, l.tile)
        }),
{
}

/// A sample within `[a * u, b * u)` belongs to a place within `[a, b)`.
proof fn lemma_place_of_sample(a: int, b: int, p: int, u: int, x: int)
    by (nonlinear_arith)
    requires
        0 < u,
        a * u <= x < b * u,
        p * u < x < p * u + u,
    ensures
        a <= p < b,
{
}

/// The samples of a place within `[a, b)` lie within `[a * u, b * u)`.
proof fn lemma_samples_of_place(a: int, b: int, p: int, u: int)
    by (nonlinear_arith)
    requires
        0 < u,
        a <= p < b,
    ensures
        a * u <= p * u,
        p * u + u <= b * u,
{
}

/// A pixel that a shape clear of the corners touches lies inside the tile.
proof fn lemma_touched_pixel_is_inside(
    r: RRect,
    tile: RRect,
    px: int,
    py: int,
    u: int,
    x: int,
    y: int,
    x2: int,
    y2: int,
)
    requires
        clear_of_corners(r, tile),
        0 < u,
        r.covers(x, y, u),
        px * u < x < px * u + u,
        py * u < y < py * u + u,
        px * u < x2 < px * u + u,
        py * u < y2 < py * u + u,
    ensures
        tile.covers(x2, y2, u),
{
    lemma_place_of_sample(r.x0 as int, r.x1 as int, px, u, x);
    lemma_place_of_sample(r.y0 as int, r.y1 as int, py, u, y);
    lemma_samples_of_place(tile.x0 as int, tile.x1 as int, px, u);
    lemma_samples_of_place(tile.y0 as int, tile.y1 as int, py, u);
    lemma_samples_of_place(tile.y0 + tile.r.top_left, py + 1, py, u);
    lemma_samples_of_place(tile.y0 + tile.r.top_right, py + 1, py, u);
    lemma_samples_of_place(py, tile.y1 - tile.r.bottom_right, py, u);
    lemma_samples_of_place(py, tile.y1 - tile.r.bottom_left, py, u);
    let t = tile;
    assert((t.y0 + t.r.top_left) * u == t.y0 * u + t.r.top_left * u) by (nonlinear_arith);
    assert((t.y0 + t.r.top_right) * u == t.y0 * u + t.r.top_right * u) by (nonlinear_arith);
    assert((t.y1 - t.r.bottom_right) * u == t.y1 * u - t.r.bottom_right * u)
        by (nonlinear_arith);
    assert((t.y1 - t.r.bottom_left) * u == t.y1 * u - t.r.bottom_left * u) by (nonlinear_arith);
}

/// One sample of a pixel beside the tile rules out the letter and the cursor.
proof fn lemma_edge_pixel_is_tile(s: Spot, size: u32, ax: int, ay: int, bx: int, by: int)
    requires
        layout_of(size) == Some(s.l),
        s.pal.rim is None,
        0 < s.ss,
        0 <= ax < s.ss,
        0 <= ay < s.ss,
        0 <= bx < s.ss,
        0 <= by < s.ss,
        s.fill(ax, ay) == Fill::Nothing,
    ensures
        s.fill(bx, by) == Fill::Nothing || s.fill(bx, by) == Fill::Tile,
{
    lemma_letter_clear_of_corners(size);
    let u = 2 * s.ss;
    let (x, y) = (s.px * u + 2 * bx + 1, s.py * u + 2 * by + 1);
    let (x2, y2) = (s.px * u + 2 * ax + 1, s.py * u + 2 * ay + 1);
    let l = s.l;
    if l.cursor.covers(x, y, u) {
        lemma_touched_pixel_is_inside(l.cursor, l.tile, s.px, s.py, u, x, y, x2, y2);
    }
    if l.bowl.covers(x, y, u) {
        lemma_touched_pixel_is_inside(l.bowl, l.tile, s.px, s.py, u, x, y, x2, y2);
    }
    if l.stem.covers(x, y, u) {
        lemma_touched_pixel_is_inside(l.stem, l.tile, s.px, s.py, u, x, y, x2, y2);
    }
    if l.tail.covers(x, y, u) {
        lemma_touched_pixel_is_inside(l.tail, l.tile, s.px, s.py, u, x, y, x2, y2);
    }
}

/// Either every sample so far counts in full, or one of them lies beside the
/// tile.
proof fn lemma_row_full_or_edge(s: Spot, sy: int, n: int)
    requires
        s.pal.tile_alpha == 255,
        0 <= n <= s.ss,
    ensures
        s.row_sum(3, sy, n) == 255 * n || exists|k: int|
            0 <= k < n && #[trigger] s.fill(k, sy) == Fill::Nothing,
    decreases n,
{
    if n > 0 {
        lemma_row_full_or_edge(s, sy, n - 1);
        if s.fill(n - 1, sy) != Fill::Nothing {
            assert(s.part(3, n - 1, sy) == 255);
        }
    }
}

proof fn lemma_full_or_edge(s: Spot, m: int) -> (at: (int, int))
    requires
        s.pal.tile_alpha == 255,
        0 <= m <= s.ss,
    ensures
        s.sum(3, m) == 255 * (s.ss * m) || (0 <= at.0 < s.ss && 0 <= at.1 < m && s.fill(
            at.0,
            at.1,
        ) == Fill::Nothing),
    decreases m,
{
    if m <= 0 {
        assert(s.ss * m == 0) by (nonlinear_arith)
            requires
                m == 0,
        ;
        (0, 0)
    } else {
        let at = lemma_full_or_edge(s, m - 1);
        lemma_row_full_or_edge(s, m - 1, s.ss);
        assert(s.ss * (m - 1) + s.ss == s.ss * m) by (nonlinear_arith);
        if s.row_sum(3, m - 1, s.ss) == 255 * s.ss {
            at
        } else {
            (choose|k: int| 0 <= k < s.ss && #[trigger] s.fill(k, m - 1) == Fill::Nothing, m - 1)
        }
    }
}

/// Samples that all fall on the tile or beside it sum to the tile's colour.
proof fn lemma_pure_row(s: Spot, c: int, sy: int, n: int)
    requires
        0 <= c < 3,
        forall|k: int|
            0 <= k < n ==> (#[trigger] s.fill(k, sy) == Fill::Nothing || s.fill(k, sy)
                == Fill::Tile),
    ensures
        s.row_sum(c, sy, n) == s.tile[c] * s.row_sum(3, sy, n),
    decreases n,
{
    let t = s.tile[c] as int;
    if n > 0 {
        lemma_pure_row(s, c, sy, n - 1);
        assert(s.fill(n - 1, sy) == Fill::Nothing || s.fill(n - 1, sy) == Fill::Tile);
        let (a, b) = (s.row_sum(3, sy, n - 1), s.part(3, n - 1, sy));
        assert(t * a + t * b == t * (a + b)) by (nonlinear_arith);
    } else {
        assert(t * 0 == 0);
    }
}

proof fn lemma_pure_sum(s: Spot, c: int, m: int)
    requires
        0 <= c < 3,
        forall|j: int, k: int|
            0 <= k < s.ss && 0 <= j < m ==> (#[trigger] s.fill(k, j) == Fill::Nothing || s.fill(
                k,
                j,
            ) == Fill::Tile),
    ensures
        s.sum(c, m) == s.tile[c] * s.sum(3, m),
    decreases m,
{
    let t = s.tile[c] as int;
    if m > 0 {
        lemma_pure_sum(s, c, m - 1);
        lemma_pure_row(s, c, m - 1, s.ss);
        let (a, b) = (s.sum(3, m - 1), s.row_sum(3, m - 1, s.ss));
        assert(t * a + t * b == t * (a + b)) by (nonlinear_arith);
    } else {
        assert(t * 0 == 0);
    }
}

proof fn lemma_partial_spot(s: Spot, size: u32, c: int)
    requires
        layout_of(size) == Some(s.l),
        s.pal.rim is None,
        s.pal.tile_alpha == 255,
        0 < s.ss,
        0 <= c < 3,
        0 < s.channel(3) < 255,
    ensures
        s.channel(c) == s.tile[c],
{
    let at = lemma_full_or_edge(s, s.ss);
    let n = s.ss * s.ss;
    assert(n > 0) by (nonlinear_arith)
        requires
            0 < s.ss,
            n == s.ss * s.ss,
    ;
    if s.sum(3, s.ss) == 255 * n {
        law_full_cover_keeps_opacity(255, n);
        assert(false);
    }
    assert forall|j: int, k: int| 0 <= k < s.ss && 0 <= j < s.ss implies (
    #[trigger] s.fill(k, j) == Fill::Nothing || s.fill(k, j) == Fill::Tile) by {
        lemma_edge_pixel_is_tile(s, size, at.0, at.1, k, j);
    }
    lemma_pure_sum(s, c, s.ss);
    lemma_sum_bounded(s, c, s.ss);
    law_one_colour_is_kept(s.tile[c] as int, s.weights());
}

/// On an opaque tile without a rim, as the official palette has it, a pixel that
/// is neither clear nor opaque has the tile's colour.
pub proof fn law_partial_pixels_are_pure_tile(
    size: u32,
    pal: Palette,
    tiles: Seq<[u8; 3]>,
    ss: int,
    px: int,
    py: int,
    c: int,
)
    requires
        layout_of(size) is Some,
        pal.tile_alpha == 255,
        pal.rim is None,
        0 < ss,
        0 <= px < size,
        0 <= py < size,
        0 <= c < 3,
        0 < (picture(size, pal, tiles, ss)->0)[4 * (py * size + px) + 3] < 255,
    ensures
        (picture(size, pal, tiles, ss)->0)[4 * (py * size + px) + c] == tiles[py][c],
{
    let i = 4 * (py * size + px);
    let s = Spot {
        l: layout_of(size)->0,
        pal,
        rim_w: rim_width(size),
        tile: tiles[py],
        ss,
        px,
        py,
    };
    lemma_pixel_place(px, py, size as int);
    assert((i + 3) / 4 == py * size + px && (i + 3) % 4 == 3);
    assert((i + c) / 4 == py * size + px && (i + c) % 4 == c);
    assert(4 * (size * size) == size * size * 4) by (nonlinear_arith);
    lemma_sum_bounded(s, c, ss);
    assert(ss * ss > 0) by (nonlinear_arith)
        requires
            0 < ss,
    ;
    lemma_coverage_is_opacity(s.weights(), ss * ss * 255);
    if s.weights() > 0 {
        lemma_mean_is_colour(s.sum(c, ss), s.weights());
    }
    assert(s.channel(3) == (picture(size, pal, tiles, ss)->0)[i + 3]);
    lemma_partial_spot(s, size, c);
}

/// The shape seen in a mirror that swaps left and right.
pub open spec fn mirrored(s: RRect) -> RRect {
    RRect {
        r: Corners {
            top_left: s.r.top_right,
            top_right: s.r.top_left,
            bottom_right: s.r.bottom_left,
            bottom_left: s.r.bottom_right,
        },
        ..s
    }
}

/// The shape seen in a mirror that swaps top and bottom.
pub open spec fn flipped(s: RRect) -> RRect {
    RRect {
        r: Corners {
            top_left: s.r.bottom_left,
            top_right: s.r.bottom_right,
            bottom_right: s.r.top_right,
            bottom_left: s.r.top_left,
        },
        ..s
    }
}

proof fn lemma_beyond_mirrored(x: int, y: int, cx: int, cy: int, m: int, n: int, r: int)
    ensures
        beyond(m - x, y, m - cx, cy, r) == beyond(x, y, cx, cy, r),
        beyond(x, n - y, cx, n - cy, r) == beyond(x, y, cx, cy, r),
{
    let (a, b) = (x - cx, y - cy);
    assert((m - x) - (m - cx) == -a && (n - y) - (n - cy) == -b);
    assert((-a) * (-a) == a * a) by (nonlinear_arith);
    assert((-b) * (-b) == b * b) by (nonlinear_arith);
}

/// Every corner is rounded in the same way: what a shape covers, the mirrored
/// shape covers in the mirror, apart from the edges, which belong to the left and
/// the top.
pub proof fn law_corners_are_rounded_alike(s: RRect, x: int, y: int, u: int)
    requires
        s.x0 * u < x < s.x1 * u,
        s.y0 * u < y < s.y1 * u,
    ensures
        mirrored(s).covers(s.x0 * u + s.x1 * u - x, y, u) == s.covers(x, y, u),
        flipped(s).covers(x, s.y0 * u + s.y1 * u - y, u) == s.covers(x, y, u),
{
    let (x0, y0, x1, y1) = (s.x0 * u, s.y0 * u, s.x1 * u, s.y1 * u);
    let (tl, tr) = (s.r.top_left * u, s.r.top_right * u);
    let (br, bl) = (s.r.bottom_right * u, s.r.bottom_left * u);
    let (m, n) = (x0 + x1, y0 + y1);
    lemma_beyond_mirrored(x, y, x0 + tl, y0 + tl, m, n, tl);
    lemma_beyond_mirrored(x, y, x1 - tr, y0 + tr, m, n, tr);
    lemma_beyond_mirrored(x, y, x1 - br, y1 - br, m, n, br);
    lemma_beyond_mirrored(x, y, x0 + bl, y1 - bl, m, n, bl);
    assert(m - (x0 + tl) == x1 - tl && m - (x1 - tr) == x0 + tr);
    assert(m - (x1 - br) == x0 + br && m - (x0 + bl) == x1 - bl);
    assert(n - (y0 + tl) == y1 - tl && n - (y0 + tr) == y1 - tr);
    assert(n - (y1 - br) == y0 + br && n - (y1 - bl) == y0 + bl);
}

/// A shape covers nothing outside its edges. Inside them a square shape covers
/// everything, and a shape whose top left corner alone is rounded leaves out what
/// lies in that corner's square further from the square's inner corner than the
/// radius.
pub proof fn law_shape_covers_its_inside(s: RRect, x: int, y: int, u: int)
    ensures
        !(s.x0 * u <= x < s.x1 * u && s.y0 * u <= y < s.y1 * u) ==> !s.covers(x, y, u),
        square(s) ==> s.covers(x, y, u) == (s.x0 * u <= x < s.x1 * u && s.y0 * u <= y < s.y1 * u),
        ({
            let r = s.r.top_left * u;
            let (dx, dy) = (s.x0 * u + r - x, s.y0 * u + r - y);
            r > 0 && s.r == (Corners {
                top_left: s.r.top_left,
                top_right: 0,
                bottom_right: 0,
                bottom_left: 0,
            }) && s.x0 * u <= x < s.x1 * u && s.y0 * u <= y < s.y1 * u ==> s.covers(x, y, u) == (dx
                <= 0 || dy <= 0 || dx * dx + dy * dy <= r * r)
        }),
{
    assert(0 * u == 0);
    let r = s.r.top_left * u;
    let (dx, dy) = (s.x0 * u + r - x, s.y0 * u + r - y);
    let (a, b) = (x - (s.x0 * u + r), y - (s.y0 * u + r));
    assert(a == -dx && b == -dy);
    assert((-dx) * (-dx) == dx * dx) by (nonlinear_arith);
    assert((-dy) * (-dy) == dy * dy) by (nonlinear_arith);
}

/// A shape inset keeps its distance on every side, and its radii shrink as much.
pub proof fn law_inset_on_every_side(s: RRect, d: int)
    requires
        0 <= d <= i32::MAX,
        i32::MIN <= s.x0 + d <= i32::MAX,
        i32::MIN <= s.y0 + d <= i32::MAX,
        i32::MIN <= s.x1 - d <= i32::MAX,
        i32::MIN <= s.y1 - d <= i32::MAX,
    ensures
        s.inner(d).x0 - s.x0 == d,
        s.x1 - s.inner(d).x1 == d,
        s.inner(d).y0 - s.y0 == d,
        s.y1 - s.inner(d).y1 == d,
        s.r.top_left >= d ==> s.r.top_left - s.inner(d).r.top_left == d,
        s.r.top_right >= d ==> s.r.top_right - s.inner(d).r.top_right == d,
        s.r.bottom_right >= d ==> s.r.bottom_right - s.inner(d).r.bottom_right == d,
        s.r.bottom_left >= d ==> s.r.bottom_left - s.inner(d).r.bottom_left == d,
        s.r.top_left < d ==> s.inner(d).r.top_left == 0,
        s.r.top_right < d ==> s.inner(d).r.top_right == 0,
        s.r.bottom_right < d ==> s.inner(d).r.bottom_right == 0,
        s.r.bottom_left < d ==> s.inner(d).r.bottom_left == 0,
{
}

/// The rim is a thirty-second of the side, rounded to whole pixels, but never
/// less than one.
pub proof fn law_rim_is_a_part_of_the_side(size: u32)
    ensures
        rim_width(size) >= 1,
        rim_width(size) > 1 ==> size - 16 < 32 * rim_width(size) <= size + 16,
        size >= 48 ==> rim_width(size) > 1,
        size < 48 ==> rim_width(size) == 1,
{
}

/// The cursor lies over everything, and the glyph over the tile: its bowl without
/// the counter, its stem and its tail. What is left of the tile is the tile, or
/// its rim where there is one; a rim changes nothing else, and outside of all
/// shapes there is nothing.
pub proof fn law_shapes_lie_over_each_other(
    l: Layout,
    rim_w: int,
    x: int,
    y: int,
    u: int,
    has_rim: bool,
)
    ensures
        ({
            let f = fill_at(l, rim_w, has_rim, x, y, u);
            let bare = fill_at(l, rim_w, false, x, y, u);
            &&& f is Cursor <==> l.cursor.covers(x, y, u)
            &&& f is Glyph ==> l.bowl.covers(x, y, u) || l.stem.covers(x, y, u) || l.tail.covers(
                x,
                y,
                u,
            )
            &&& f is Glyph && l.counter.covers(x, y, u) ==> l.stem.covers(x, y, u)
                || l.tail.covers(x, y, u)
            &&& l.stem.covers(x, y, u) || l.tail.covers(x, y, u) ==> f is Glyph || f is Cursor
            &&& l.bowl.covers(x, y, u) && !l.counter.covers(x, y, u) ==> f is Glyph || f is Cursor
            &&& f is Nothing ==> !l.tile.covers(x, y, u)
            &&& f is Tile || f is Rim ==> l.tile.covers(x, y, u) && bare is Tile
            &&& f is Rim ==> has_rim && !l.tile.inner(rim_w).covers(x, y, u)
            &&& f is Tile && has_rim ==> l.tile.inner(rim_w).covers(x, y, u)
            &&& f != bare ==> f is Rim
        }),
{
}

/// A sample is taken in the middle of its part of the pixel.
pub proof fn law_samples_are_taken_in_the_middle(s: Spot, sx: int, sy: int)
    ensures
        s.fill(sx, sy) == fill_at(
            s.l,
            s.rim_w,
            s.pal.rim is Some,
            2 * (s.px * s.ss + sx) + 1,
            2 * (s.py * s.ss + sy) + 1,
            2 * s.ss,
        ),
{
    let (px, py, ss) = (s.px, s.py, s.ss);
    assert(px * (2 * ss) == 2 * (px * ss)) by (nonlinear_arith);
    assert(py * (2 * ss) == 2 * (py * ss)) by (nonlinear_arith);
}

proof fn lemma_sum_alike(s: Spot, c: int, p: int, sy: int, n: int)
    requires
        0 <= n,
        forall|sx: int| 0 <= sx < n ==> #[trigger] s.part(c, sx, sy) == p,
    ensures
        s.row_sum(c, sy, n) == n * p,
    decreases n,
{
    if n > 0 {
        lemma_sum_alike(s, c, p, sy, n - 1);
        assert(s.part(c, n - 1, sy) == p);
        assert((n - 1) * p + p == n * p) by (nonlinear_arith);
    } else {
        assert(n * p == 0) by (nonlinear_arith)
            requires
                n == 0,
        ;
    }
}

proof fn lemma_sums_alike(s: Spot, c: int, p: int, m: int)
    requires
        0 <= m,
        0 <= s.ss,
        forall|sx: int, sy: int|
            0 <= sx < s.ss && 0 <= sy < m ==> #[trigger] s.part(c, sx, sy) == p,
    ensures
        s.sum(c, m) == m * (s.ss * p),
    decreases m,
{
    let q = s.ss * p;
    if m > 0 {
        lemma_sums_alike(s, c, p, m - 1);
        lemma_sum_alike(s, c, p, m - 1, s.ss);
        assert((m - 1) * q + q == m * q) by (nonlinear_arith);
    } else {
        assert(m * q == 0) by (nonlinear_arith)
            requires
                m == 0,
        ;
    }
}

/// A pixel that lies on one thing alone is painted as that thing: the cursor, the
/// glyph and the rim opaque, each in its colour of the palette; the tile in its
/// colour and opacity; and nothing where there is nothing.
pub proof fn law_pixel_is_painted_as_what_it_lies_on(s: Spot, f: Fill, c: int)
    requires
        0 < s.ss,
        0 <= c < 3,
        forall|sx: int, sy: int|
            0 <= sx < s.ss && 0 <= sy < s.ss ==> #[trigger] s.fill(sx, sy) == f,
    ensures
        f is Cursor ==> s.channel(c) == s.pal.cursor[c] && s.channel(3) == 255,
        f is Glyph ==> s.channel(c) == s.pal.glyph[c] && s.channel(3) == 255,
        f is Rim && s.pal.rim is Some ==> s.channel(c) == s.pal.rim->0[c] && s.channel(3) == 255,
        f is Tile && s.pal.tile_alpha > 0 ==> s.channel(c) == s.tile[c],
        f is Tile ==> s.channel(3) == s.pal.tile_alpha,
        f is Nothing ==> s.channel(c) == 0 && s.channel(3) == 0,
{
    let w = weight(f, s.pal.tile_alpha);
    let colour = tint(f, s.pal, s.tile)[c] as int;
    assert forall|sx: int, sy: int| 0 <= sx < s.ss && 0 <= sy < s.ss implies #[trigger] s.part(
        c,
        sx,
        sy,
    ) == colour * w by {
        assert(s.fill(sx, sy) == f);
    }
    assert forall|sx: int, sy: int| 0 <= sx < s.ss && 0 <= sy < s.ss implies #[trigger] s.part(
        3,
        sx,
        sy,
    ) == w by {
        assert(s.fill(sx, sy) == f);
    }
    lemma_sums_alike(s, c, colour * w, s.ss);
    lemma_sums_alike(s, 3, w, s.ss);
    let n = s.ss * s.ss;
    let ss = s.ss;
    assert(n > 0) by (nonlinear_arith)
        requires
            ss > 0,
            n == ss * ss,
    ;
    assert(ss * (ss * w) == w * n) by (nonlinear_arith)
        requires
            n == ss * ss,
    ;
    assert(ss * (ss * (colour * w)) == colour * (w * n)) by (nonlinear_arith)
        requires
            n == ss * ss,
    ;
    assert(s.weights() == w * n);
    if w > 0 {
        assert(w * n > 0) by (nonlinear_arith)
            requires
                w > 0,
                n > 0,
        ;
        law_one_colour_is_kept(colour, w * n);
        law_full_cover_keeps_opacity(w, n);
    } else {
        assert(w * n == 0) by (nonlinear_arith)
            requires
                w == 0,
        ;
    }
}

/// A picture has four bytes for each pixel, pixel by pixel and row by row from the
/// top left, each row with its tile's colour.
pub proof fn law_picture_lies_row_by_row(
    size: u32,
    pal: Palette,
    tiles: Seq<[u8; 3]>,
    ss: int,
    px: int,
    py: int,
    c: int,
)
    requires
        layout_of(size) is Some,
        0 <= px < size,
        0 <= py < size,
        0 <= c < 4,
    ensures
        ({
            let p = picture(size, pal, tiles, ss);
            let spot = Spot {
                l: layout_of(size)->0,
                pal,
                rim_w: rim_width(size),
                tile: tiles[py],
                ss,
                px,
                py,
            };
            &&& p is Some
            &&& p->0.len() == 4 * size * size
            &&& p->0[4 * (py * size + px) + c] == spot.channel(c) as u8
        }),
{
    let n = size as int;
    let q = py * n + px;
    assert(0 <= q < n * n) by (nonlinear_arith)
        requires
            q == py * n + px,
            0 <= px < n,
            0 <= py < n,
    ;
    assert(q / n == py && q % n == px) by {
        vstd::arithmetic::div_mod::lemma_fundamental_div_mod_converse(q, n, py, px);
    }
    let i = 4 * q + c;
    assert(i / 4 == q && i % 4 == c);
    assert(n * n * 4 == 4 * n * n) by (nonlinear_arith);
}

/// Whether a shape lies with its top left corner at `(x, y)` and is `w` wide and
/// `h` high.
pub open spec fn lies(s: RRect, x: int, y: int, w: int, h: int) -> bool {
    &&& s.x0 == x
    &&& s.y0 == y
    &&& s.x1 - s.x0 == w
    &&& s.y1 - s.y0 == h
}

/// Whether the corners of a shape have these radii, clockwise from the top left.
pub open spec fn rounded(s: RRect, a: int, b: int, c: int, d: int) -> bool {
    &&& s.r.top_left == a
    &&& s.r.top_right == b
    &&& s.r.bottom_right == c
    &&& s.r.bottom_left == d
}

/// Where each shape lies at each size, how large it is and how round.
pub proof fn law_shapes_lie_where_they_are_drawn()
    ensures
        ({
            let l = layout_of(16)->0;
            &&& lies(l.tile, 1, 1, 14, 14)
            &&& rounded(l.tile, 0, 0, 0, 0)
            &&& lies(l.bowl, 3, 4, 5, 4)
            &&& rounded(l.bowl, 0, 0, 0, 0)
            &&& lies(l.counter, 4, 5, 4, 2)
            &&& rounded(l.counter, 0, 0, 0, 0)
            &&& lies(l.stem, 8, 4, 2, 7)
            &&& rounded(l.stem, 0, 0, 0, 0)
            &&& lies(l.tail, 4, 9, 6, 2)
            &&& rounded(l.tail, 0, 0, 0, 0)
            &&& lies(l.cursor, 11, 4, 2, 2)
            &&& rounded(l.cursor, 0, 0, 0, 0)
        }),
        ({
            let l = layout_of(20)->0;
            &&& lies(l.tile, 1, 1, 18, 18)
            &&& rounded(l.tile, 3, 3, 3, 3)
            &&& lies(l.bowl, 4, 5, 6, 5)
            &&& rounded(l.bowl, 1, 0, 0, 1)
            &&& lies(l.counter, 5, 6, 4, 3)
            &&& rounded(l.counter, 0, 0, 0, 0)
            &&& lies(l.stem, 10, 5, 2, 9)
            &&& rounded(l.stem, 0, 1, 0, 0)
            &&& lies(l.tail, 6, 12, 6, 2)
            &&& rounded(l.tail, 0, 0, 0, 0)
            &&& lies(l.cursor, 13, 5, 2, 2)
            &&& rounded(l.cursor, 0, 0, 0, 0)
        }),
        ({
            let l = layout_of(24)->0;
            &&& lies(l.tile, 2, 2, 20, 20)
            &&& rounded(l.tile, 4, 4, 4, 4)
            &&& lies(l.bowl, 5, 6, 8, 7)
            &&& rounded(l.bowl, 1, 0, 0, 1)
            &&& lies(l.counter, 7, 8, 4, 3)
            &&& rounded(l.counter, 0, 0, 0, 0)
            &&& lies(l.stem, 13, 6, 2, 11)
            &&& rounded(l.stem, 0, 1, 1, 0)
            &&& lies(l.tail, 7, 15, 8, 2)
            &&& rounded(l.tail, 1, 0, 1, 1)
            &&& lies(l.cursor, 16, 6, 2, 2)
            &&& rounded(l.cursor, 0, 0, 0, 0)
        }),
        ({
            let l = layout_of(32)->0;
            &&& lies(l.tile, 2, 2, 28, 28)
            &&& rounded(l.tile, 6, 6, 6, 6)
            &&& lies(l.bowl, 7, 9, 11, 8)
            &&& rounded(l.bowl, 2, 0, 0, 2)
            &&& lies(l.counter, 9, 11, 6, 4)
            &&& rounded(l.counter, 1, 1, 1, 1)
            &&& lies(l.stem, 18, 9, 2, 14)
            &&& rounded(l.stem, 0, 1, 1, 0)
            &&& lies(l.tail, 10, 20, 10, 3)
            &&& rounded(l.tail, 1, 0, 1, 1)
            &&& lies(l.cursor, 21, 9, 3, 3)
            &&& rounded(l.cursor, 0, 0, 0, 0)
        }),
        ({
            let l = layout_of(40)->0;
            &&& lies(l.tile, 3, 3, 34, 34)
            &&& rounded(l.tile, 7, 7, 7, 7)
            &&& lies(l.bowl, 8, 11, 14, 11)
            &&& rounded(l.bowl, 2, 0, 0, 2)
            &&& lies(l.counter, 11, 14, 8, 5)
            &&& rounded(l.counter, 1, 1, 1, 1)
            &&& lies(l.stem, 22, 11, 3, 18)
            &&& rounded(l.stem, 0, 2, 2, 0)
            &&& lies(l.tail, 12, 25, 13, 4)
            &&& rounded(l.tail, 2, 0, 2, 2)
            &&& lies(l.cursor, 27, 11, 4, 4)
            &&& rounded(l.cursor, 1, 1, 1, 1)
        }),
        ({
            let l = layout_of(48)->0;
            &&& lies(l.tile, 3, 3, 42, 42)
            &&& rounded(l.tile, 8, 8, 8, 8)
            &&& lies(l.bowl, 10, 13, 17, 13)
            &&& rounded(l.bowl, 3, 0, 0, 3)
            &&& lies(l.counter, 14, 17, 9, 5)
            &&& rounded(l.counter, 1, 1, 1, 1)
            &&& lies(l.stem, 27, 13, 4, 21)
            &&& rounded(l.stem, 0, 2, 2, 0)
            &&& lies(l.tail, 14, 30, 17, 4)
            &&& rounded(l.tail, 2, 0, 2, 2)
            &&& lies(l.cursor, 33, 13, 5, 5)
            &&& rounded(l.cursor, 1, 1, 1, 1)
        }),
        ({
            let l = layout_of(64)->0;
            &&& lies(l.tile, 4, 4, 56, 56)
            &&& rounded(l.tile, 11, 11, 11, 11)
            &&& lies(l.bowl, 14, 17, 22, 18)
            &&& rounded(l.bowl, 4, 0, 0, 4)
            &&& lies(l.counter, 19, 22, 12, 8)
            &&& rounded(l.counter, 2, 2, 2, 2)
            &&& lies(l.stem, 36, 17, 5, 29)
            &&& rounded(l.stem, 0, 2, 2, 0)
            &&& lies(l.tail, 20, 40, 21, 6)
            &&& rounded(l.tail, 2, 0, 2, 2)
            &&& lies(l.cursor, 43, 17, 7, 7)
            &&& rounded(l.cursor, 1, 1, 1, 1)
        }),
        ({
            let l = layout_of(256)->0;
            &&& lies(l.tile, 17, 17, 222, 222)
            &&& rounded(l.tile, 44, 44, 44, 44)
            &&& lies(l.bowl, 56, 71, 88, 70)
            &&& rounded(l.bowl, 16, 0, 0, 16)
            &&& lies(l.counter, 76, 91, 48, 30)
            &&& rounded(l.counter, 8, 8, 8, 8)
            &&& lies(l.stem, 144, 71, 20, 113)
            &&& rounded(l.stem, 0, 10, 10, 0)
            &&& lies(l.tail, 79, 161, 85, 23)
            &&& rounded(l.tail, 10, 0, 10, 10)
            &&& lies(l.cursor, 174, 71, 26, 26)
            &&& rounded(l.cursor, 4, 4, 4, 4)
        }),
{
}

/// At every size the tile is a square in the middle of the grid, with four equal
/// corners, and the cursor is a square.
pub proof fn law_tile_and_cursor_are_square(size: u32)
    requires
        layout_of(size) is Some,
    ensures
        ({
            let l = layout_of(size)->0;
            &&& l.tile.x0 + l.tile.x1 == size
            &&& l.tile.y0 + l.tile.y1 == size
            &&& l.tile.x0 == l.tile.y0
            &&& rounded(
                l.tile,
                l.tile.r.top_left as int,
                l.tile.r.top_left as int,
                l.tile.r.top_left as int,
                l.tile.r.top_left as int,
            )
            &&& l.cursor.x1 - l.cursor.x0 == l.cursor.y1 - l.cursor.y0
        }),
{
}

} // verus!
