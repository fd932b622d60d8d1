//! What is drawn of the terminal, given what it reports of itself.

use giest::engine::cells::{
    cell_colors, readable_fg, CellRead, Colors, Style, StyleColor, Underline,
};
use giest::engine::images::{
    walk_placements, Compression, Graphics, ImageFormat, ImageRead, PlacementRead, RenderInfo,
};
use giest::engine::png_decode::decode_png;
use giest::engine::screen::{dynamic_colors, jump_to_prompt, screen_text, CellText, ScreenRow};
use giest::engine::selection::SelectionState;
use giest::engine::snapshot::{refill, CursorVisual, FrameRead, RowRead};
use giest::engine::{
    BoldColor, Cell, GridSnapshot, ImageData, ImagePlacement, Rgb, RowText, UnderlineStyle,
};
use std::collections::HashMap;
use std::sync::Arc;

const BLACK: Rgb = Rgb { r: 0, g: 0, b: 0 };

/// The colours of a terminal, as a theme sets them.
struct Theme {
    fg: Rgb,
    bg: Rgb,
    palette: [Rgb; 256],
    bold: BoldColor,
}

fn theme(fg: Rgb, bg: Rgb) -> Theme {
    Theme { fg, bg, palette: [BLACK; 256], bold: BoldColor::Off }
}

fn plain() -> Style {
    Style {
        fg_color: StyleColor::Unset,
        underline: Underline::Off,
        underline_color: StyleColor::Unset,
        bold: false,
        italic: false,
        faint: false,
        blink: false,
        inverse: false,
        invisible: false,
        strikethrough: false,
        overline: false,
    }
}

/// A cell of one character, its text readable as it is.
fn cell(t: &Theme, text: char, style: Style, bg: Option<Rgb>) -> CellRead {
    let fg = match style.fg_color {
        StyleColor::Unset => None,
        StyleColor::Rgb(c) => Some(c),
        StyleColor::Palette(i) => Some(t.palette[i as usize]),
    };
    let c = Colors { default_fg: t.fg, default_bg: t.bg, palette: &t.palette, bold: t.bold };
    let readable = cell_colors(&style, fg, bg, &c).0;
    CellRead { style, fg, bg, text: vec![text], readable }
}

fn row(cells: Vec<CellRead>) -> RowRead {
    RowRead { selection: None, cells, broken: false }
}

/// A frame of these rows, the cursor at `cursor`.
fn snap(t: &Theme, cols: u16, rows: u16, lines: &[RowRead], cursor: (u16, u16)) -> GridSnapshot {
    let mut s = GridSnapshot::default();
    let frame = FrameRead {
        cols,
        rows,
        foreground: t.fg,
        background: t.bg,
        cursor: None,
        palette: &t.palette,
        cursor_visible: true,
        cursor_blinking: false,
        cursor_visual: CursorVisual::Block,
        cursor_at: Some(cursor),
        lines,
        bold: t.bold,
    };
    assert!(refill(&mut s, &frame).is_ok());
    s
}

/// The first cell of a frame that holds just it.
fn first(t: &Theme, text: char, style: Style) -> Cell {
    let lines = [row(vec![cell(t, text, style, None)])];
    snap(t, 20, 3, &lines, (1, 0)).cell(0, 0).unwrap().clone()
}

// ---------------------------------------------------------------- colours

#[test]
fn apply_theme_sets_default_colors() {
    let t = theme(Rgb::new(200, 100, 50), Rgb::new(16, 18, 24));
    let s = snap(&t, 20, 3, &[], (0, 0));
    assert_eq!(s.default_bg, Rgb::new(16, 18, 24));
    assert_eq!(s.default_fg, Rgb::new(200, 100, 50));
    let lines = [row("hello".chars().map(|c| cell(&t, c, plain(), None)).collect())];
    let s2 = snap(&t, 20, 3, &lines, (5, 0));
    assert_eq!(s2.default_bg, Rgb::new(16, 18, 24));
}

#[test]
fn captures_text_styles_and_color() {
    let mut t = theme(Rgb::new(200, 200, 200), BLACK);
    t.palette[1] = Rgb::new(204, 102, 102);
    let lines = [row(vec![
        cell(&t, 'B', Style { bold: true, ..plain() }, None),
        cell(&t, 'I', Style { italic: true, ..plain() }, None),
        cell(&t, 'R', Style { fg_color: StyleColor::Palette(1), ..plain() }, None),
    ])];
    let s = snap(&t, 20, 3, &lines, (3, 0));
    let b = s.cell(0, 0).unwrap();
    assert_eq!(b.text.as_str(), "B");
    assert!(b.bold, "expected bold cell");
    let i = s.cell(1, 0).unwrap();
    assert!(i.italic, "expected italic cell");
    let r = s.cell(2, 0).unwrap();
    assert_eq!(r.text.as_str(), "R");
    assert!(r.fg.r > r.fg.g && r.fg.r > r.fg.b, "expected reddish fg, got {:?}", r.fg);
}

#[test]
fn captures_extended_text_attrs() {
    let t = theme(Rgb::new(200, 200, 200), BLACK);
    let lines = [row(vec![
        cell(&t, 'F', Style { faint: true, ..plain() }, None),
        cell(&t, 'D', Style { underline: Underline::Double, ..plain() }, None),
        cell(&t, 'C', Style { underline: Underline::Curly, ..plain() }, None),
        cell(&t, 'O', Style { overline: true, ..plain() }, None),
        cell(&t, 'K', Style { blink: true, ..plain() }, None),
        cell(&t, 'V', Style { invisible: true, ..plain() }, None),
    ])];
    let s = snap(&t, 20, 3, &lines, (6, 0));
    assert!(s.cell(0, 0).unwrap().faint, "expected faint cell");
    assert_eq!(s.cell(1, 0).unwrap().underline, UnderlineStyle::Double);
    assert_eq!(s.cell(2, 0).unwrap().underline, UnderlineStyle::Curly);
    assert!(s.cell(3, 0).unwrap().overline, "expected overline cell");
    assert!(s.cell(4, 0).unwrap().blink, "expected blink cell");
    assert!(s.has_blink, "snapshot.has_blink set when any cell blinks");
    assert!(s.cell(5, 0).unwrap().invisible, "expected invisible cell");
}

#[test]
fn resolves_palette_underline_color() {
    let mut t = theme(Rgb::new(200, 200, 200), BLACK);
    t.palette[5] = Rgb::new(200, 50, 25);
    let style = Style {
        underline: Underline::Single,
        underline_color: StyleColor::Palette(5),
        ..plain()
    };
    let c = first(&t, 'U', style);
    assert_eq!(c.underline, UnderlineStyle::Single);
    assert_eq!(c.underline_color, Some(Rgb::new(200, 50, 25)));
}

/// A theme with a plain and a bright red, and bold text in the plain one.
fn reds() -> (Theme, Style) {
    let mut t = theme(Rgb::new(200, 200, 200), BLACK);
    t.palette[1] = Rgb::new(100, 0, 0);
    t.palette[9] = Rgb::new(200, 50, 25);
    (t, Style { bold: true, fg_color: StyleColor::Palette(1), ..plain() })
}

#[test]
fn bold_is_bright_uses_bright_palette_variant() {
    let (mut t, bold_red) = reds();
    // Without the policy, bold red stays the plain red.
    assert_eq!(first(&t, 'R', bold_red).fg, Rgb::new(100, 0, 0));
    t.bold = BoldColor::Bright;
    assert_eq!(first(&t, 'R', bold_red).fg, Rgb::new(200, 50, 25));
}

#[test]
fn bold_color_sets_fixed_color_for_default_fg() {
    let (mut t, bold_red) = reds();
    t.bold = BoldColor::Color(Rgb::new(10, 20, 30));
    // A bold default-foreground cell takes the fixed bold color.
    assert_eq!(first(&t, 'B', Style { bold: true, ..plain() }).fg, Rgb::new(10, 20, 30));
    // A bold palette color is still brightened (not the fixed color).
    assert_eq!(first(&t, 'R', bold_red).fg, Rgb::new(200, 50, 25));
}

#[test]
fn bold_is_bright_tracks_osc4_palette_redefinition() {
    let (mut t, bold_red) = reds();
    t.bold = BoldColor::Bright;
    // The palette that the frame reports is what brightens.
    t.palette[9] = Rgb::new(0, 255, 0);
    assert_eq!(first(&t, 'R', bold_red).fg, Rgb::new(0, 255, 0));
}

#[test]
fn min_contrast_forced_glyph_drops_faint() {
    let t = theme(Rgb::new(30, 30, 30), BLACK);
    // Too little contrast, and white stands out better on black.
    let mut x = cell(&t, 'X', Style { faint: true, ..plain() }, None);
    x.readable = readable_fg(x.readable, false, true);
    let c = snap(&t, 20, 3, &[row(vec![x])], (1, 0)).cell(0, 0).unwrap().clone();
    assert_eq!(c.fg, Rgb::new(255, 255, 255));
    assert!(!c.faint, "faint is dropped when min-contrast forces a color");

    let white = StyleColor::Rgb(Rgb::new(255, 255, 255));
    let mut x = cell(&t, 'X', Style { faint: true, fg_color: white, ..plain() }, None);
    x.readable = readable_fg(x.readable, true, true);
    let c2 = snap(&t, 20, 3, &[row(vec![x])], (1, 0)).cell(0, 0).unwrap().clone();
    assert!(c2.faint, "faint kept when the cell already meets contrast");
}

#[test]
fn minimum_contrast_forces_readable_foreground() {
    let t = theme(Rgb::new(30, 30, 30), BLACK);
    let mut x = cell(&t, 'X', plain(), None);
    x.readable = readable_fg(x.readable, true, true);
    let s = snap(&t, 20, 3, &[row(vec![x])], (1, 0));
    assert_eq!(s.cell(0, 0).unwrap().fg, Rgb::new(30, 30, 30));

    let mut x = cell(&t, 'X', plain(), None);
    x.readable = readable_fg(x.readable, false, true);
    let s = snap(&t, 20, 3, &[row(vec![x])], (1, 0));
    assert_eq!(s.cell(0, 0).unwrap().fg, Rgb::new(255, 255, 255));
}

#[test]
fn dynamic_colors_reports_effective_values() {
    let (fg, bg) = (Rgb::new(0xc5, 0xc8, 0xc6), Rgb::new(0x10, 0x12, 0x18));
    let got = dynamic_colors(Some(fg), Some(bg), None);
    assert_eq!(got.0, Rgb::new(0xc5, 0xc8, 0xc6));
    assert_eq!(got.1, Rgb::new(0x10, 0x12, 0x18));
    assert_eq!(got.2, None, "no cursor color set");
    assert_eq!(dynamic_colors(Some(fg), Some(Rgb::new(0, 0, 255)), None).1, Rgb::new(0, 0, 255));
    assert_eq!(
        dynamic_colors(Some(fg), Some(bg), Some(Rgb::new(1, 2, 3))).2,
        Some(Rgb::new(1, 2, 3))
    );
}

#[test]
fn default_background_cells_are_flagged() {
    let mut t = theme(Rgb::new(200, 200, 200), Rgb::new(0x1d, 0x1f, 0x21));
    t.palette[1] = Rgb::new(200, 0, 0);
    // 'a' on the default, 'b' on red, then back to the default for ' ' and 'c'.
    let lines = [row(vec![
        cell(&t, 'a', plain(), None),
        cell(&t, 'b', plain(), Some(t.palette[1])),
        cell(&t, ' ', plain(), None),
        cell(&t, 'c', plain(), None),
    ])];
    let s = snap(&t, 20, 3, &lines, (4, 0));
    assert!(!s.cell(0, 0).unwrap().bg_explicit, "default bg is not explicit");
    assert!(s.cell(1, 0).unwrap().bg_explicit, "SGR 41 sets an explicit bg");
    assert_eq!(s.cell(1, 0).unwrap().bg, t.palette[1]);
    assert!(!s.cell(2, 0).unwrap().bg_explicit, "SGR 0 resets to default bg");
    assert!(!s.cell(3, 0).unwrap().bg_explicit);
    // A cell that was not reported is blank, and a blank cell has no background
    // of its own: it would punch a hole in a translucent one.
    assert!(!s.cell(19, 2).unwrap().bg_explicit, "untouched cells stay default");
}

#[test]
fn inverse_cell_is_flagged_and_colors_swapped() {
    let fg = Rgb::new(200, 200, 200);
    let bg = Rgb::new(0x1d, 0x1f, 0x21);
    let t = theme(fg, bg);
    let c = first(&t, 'X', Style { inverse: true, ..plain() });
    assert!(c.inverse, "SGR 7 is carried through to the renderer");
    assert_eq!(c.fg, bg, "inverse swaps fg/bg");
    assert_eq!(c.bg, fg);
    // The swap does not invent an explicit background.
    assert!(!c.bg_explicit);
}

#[test]
fn newline_advances_cursor_row() {
    let t = theme(Rgb::new(200, 200, 200), BLACK);
    let lines = [row("hi".chars().map(|c| cell(&t, c, plain(), None)).collect())];
    let s = snap(&t, 20, 3, &lines, (0, 1));
    assert_eq!(s.cell(0, 0).unwrap().text.as_str(), "h");
    assert_eq!(s.cell(1, 0).unwrap().text.as_str(), "i");
    assert_eq!(s.cursor_y, 1);
    assert_eq!(s.cursor_x, 0);
}

// ---------------------------------------------------------------- images

/// One frame's placements.
struct Shown {
    cache: HashMap<u32, Arc<ImageData>>,
    seen: Vec<u32>,
}

impl Shown {
    fn new() -> Self {
        Shown { cache: HashMap::new(), seen: Vec::new() }
    }

    fn images(&mut self, list: &[PlacementRead<'_>]) -> Vec<ImagePlacement> {
        let mut out = Vec::new();
        let g = Graphics::Listed(list);
        assert!(walk_placements(g, &mut self.cache, &mut self.seen, &mut out).is_ok());
        out
    }
}

/// An image of 1x2 RGB pixels, shown across 4x2 cells of 10x20 pixels.
fn rgb_1x2(data: &[u8]) -> PlacementRead<'_> {
    PlacementRead {
        is_virtual: Some(false),
        image_id: Some(1),
        placement_id: Some(1),
        x_offset: Some(0),
        y_offset: Some(0),
        z: Some(0),
        image: Some(ImageRead {
            width: Some(1),
            height: Some(2),
            format: Some(ImageFormat::Rgb),
            compression: Some(Compression::Raw),
            data: Some(data),
        }),
        info: Some(RenderInfo {
            pixel_width: 40,
            pixel_height: 40,
            grid_cols: 4,
            grid_rows: 2,
            viewport_col: 0,
            viewport_row: 0,
            viewport_visible: true,
            source_x: 0,
            source_y: 0,
            source_width: 1,
            source_height: 2,
        }),
    }
}

#[test]
fn kitty_transmit_and_display_yields_a_placement() {
    let images = Shown::new().images(&[rgb_1x2(&[0xff; 6])]);
    assert_eq!(images.len(), 1);
    let p = &images[0];
    assert_eq!((p.image_id, p.placement_id), (1, 1));
    assert_eq!((p.data.width, p.data.height), (1, 2));
    assert_eq!(p.data.rgba.len(), 2 * 4, "RGB expanded to RGBA");
    assert_eq!((p.grid_cols, p.grid_rows), (4, 2));
    assert_eq!((p.dest_w, p.dest_h), (40, 40));
    assert_eq!((p.col, p.row), (0, 0));
    assert!(p.visible);
}

#[test]
fn kitty_delete_clears_placements_without_a_dirty_frame() {
    let mut shown = Shown::new();
    assert_eq!(shown.images(&[rgb_1x2(&[0xff; 6])]).len(), 1);
    assert_eq!(shown.images(&[rgb_1x2(&[0xff; 6])]).len(), 1);
    assert!(shown.images(&[]).is_empty(), "delete must take effect");
    assert!(shown.cache.is_empty(), "and its pixels are forgotten");
}

#[test]
fn kitty_image_pixels_are_shared_across_snapshots() {
    let mut shown = Shown::new();
    let a = shown.images(&[rgb_1x2(&[0xff; 6])])[0].data.clone();
    let b = shown.images(&[rgb_1x2(&[0xff; 6])])[0].data.clone();
    assert!(Arc::ptr_eq(&a, &b), "pixels re-copied every frame");
}

#[test]
fn kitty_png_is_decoded_by_the_installed_decoder() {
    let png = [
        137, 80, 78, 71, 13, 10, 26, 10, 0, 0, 0, 13, 73, 72, 68, 82, 0, 0, 0, 1, 0, 0, 0, 1, 8, 6,
        0, 0, 0, 31, 21, 196, 137, 0, 0, 0, 13, 73, 68, 65, 84, 120, 156, 99, 248, 207, 192, 240,
        31, 0, 5, 0, 1, 255, 137, 153, 61, 29, 0, 0, 0, 0, 73, 69, 78, 68, 174, 66, 96, 130,
    ];
    let img = decode_png(&png).unwrap();
    assert_eq!((img.width, img.height), (1, 1));
    assert_eq!(img.rgba.len(), 4);
    // It is stored as RGBA, and shown from there.
    let mut p = rgb_1x2(&img.rgba);
    p.image_id = Some(7);
    p.image = Some(ImageRead {
        width: Some(1),
        height: Some(1),
        format: Some(ImageFormat::Rgba),
        compression: Some(Compression::Raw),
        data: Some(&img.rgba),
    });
    let images = Shown::new().images(&[p]);
    assert_eq!(images.len(), 1);
    assert_eq!((images[0].data.width, images[0].data.height), (1, 1));
    assert_eq!(images[0].data.rgba, img.rgba);
}

// ---------------------------------------------------------------- selection

#[test]
fn adjust_selection_does_nothing_without_a_selection() {
    let mut s: SelectionState<(u16, u16)> = SelectionState::new();
    assert!(s.ends().is_none());
    assert_eq!(s.adjust(None), None);
    assert!(!s.installed);
}

#[test]
fn an_update_without_an_anchor_selects_nothing() {
    let mut s: SelectionState<(u16, u16)> = SelectionState::new();
    // Without an anchor there are no ends to install.
    assert!(s.anchor.is_none());
    assert!(!s.drag(None, false), "the terminal has nothing to remove");
    assert!(!s.installed);
    assert!(s.ends().is_none());
}

/// First and last selected column of a frame whose first row reports `selection`.
fn span(selection: Option<(u16, u16)>) -> Option<(u16, u16)> {
    let t = theme(Rgb::new(200, 200, 200), BLACK);
    let mut line = row("hello".chars().map(|c| cell(&t, c, plain(), None)).collect());
    line.selection = selection;
    let s = snap(&t, 10, 2, &[line], (5, 0));
    let on: Vec<u16> = (0..10).filter(|x| s.cell(*x, 0).unwrap().selected).collect();
    on.first().map(|a| (*a, *on.last().unwrap()))
}

#[test]
fn clearing_a_selection_leaves_no_text_and_no_highlight() {
    let mut s: SelectionState<(u16, u16)> = SelectionState::new();
    s.begin(Some((0, 0)));
    assert!(!s.drag(Some((Some((0, 0)), Some((4, 0)))), false));
    assert!(s.installed);
    assert_eq!(span(Some((0, 4))), Some((0, 4)));

    assert!(s.clear(), "the terminal's selection is to be removed");
    assert!(!s.installed);
    assert!(s.ends().is_none());
    assert!(s.take_moved(), "and the frame drawn anew");
    assert_eq!(span(None), None);
}

// ---------------------------------------------------------------- rows

/// A screen of these rows: their cells, `None` for half of a wide character,
/// and whether they continue onto the next.
fn read_screen(rows: &[(&[Option<&str>], bool)], cols: usize) -> Vec<RowText> {
    let clusters: Vec<Vec<Option<Vec<char>>>> = rows
        .iter()
        .map(|(cells, _)| {
            (0..cols)
                .map(|x| match cells.get(x) {
                    Some(Some(t)) => Some(t.chars().collect()),
                    Some(None) => None,
                    None => Some(Vec::new()),
                })
                .collect()
        })
        .collect();
    let lines: Vec<Vec<CellText<'_>>> = clusters
        .iter()
        .map(|cells| {
            cells
                .iter()
                .map(|c| match c {
                    Some(cluster) => CellText::Cluster(cluster),
                    None => CellText::Spacer,
                })
                .collect()
        })
        .collect();
    let screen: Vec<ScreenRow<'_>> = lines
        .iter()
        .zip(rows)
        .map(|(cells, (_, wrapped))| ScreenRow { cells, wrapped: Some(*wrapped) })
        .collect();
    screen_text(&screen)
}

fn text(r: &RowText) -> String {
    r.chars.iter().collect()
}

#[test]
fn screen_text_reads_rows_with_column_mapping() {
    let hello = [Some("h"), Some("e"), Some("l"), Some("l"), Some("o")];
    let world = [Some("w"), Some("o"), Some("r"), Some("l"), Some("d")];
    let rows = read_screen(&[(&hello, false), (&world, false), (&[], false)], 20);
    assert_eq!(rows.len(), 3, "scrollback(0) + 3 viewport rows");
    assert_eq!(text(&rows[0]), "hello");
    assert_eq!(rows[0].cols, vec![0, 1, 2, 3, 4], "each char maps to its column");
    assert_eq!(rows[0].row, 0);
    assert_eq!(text(&rows[1]), "world");
    // The empty cursor row trims to nothing.
    assert!(rows[2].chars.is_empty());
}

#[test]
fn screen_text_skips_wide_char_tail_cells() {
    let wide = [Some("世"), None, Some("界"), None, Some("x")];
    let rows = read_screen(&[(&wide, false), (&[], false)], 20);
    assert_eq!(text(&rows[0]), "世界x");
    assert_eq!(rows[0].cols, vec![0, 2, 4]);
}

/// The first and last row of each place where `query` stands in the text, rows
/// that continue being joined.
fn find_joined(rows: &[RowText], query: &str) -> Vec<(u32, u32)> {
    let query: Vec<char> = query.chars().collect();
    let mut found = Vec::new();
    let mut line: Vec<(char, u32)> = Vec::new();
    for row in rows {
        line.extend(row.chars.iter().map(|c| (*c, row.row)));
        if !row.wrapped {
            for w in line.windows(query.len()) {
                if w.iter().map(|(c, _)| *c).eq(query.iter().copied()) {
                    found.push((w[0].1, w[w.len() - 1].1));
                }
            }
            line.clear();
        }
    }
    found
}

#[test]
fn screen_text_marks_soft_wrapped_rows_so_search_can_join_them() {
    // 10 columns, 15 characters, so row 0 continues onto row 1.
    let chars: Vec<String> = "hello wonderful".chars().map(String::from).collect();
    let cells: Vec<Option<&str>> = chars.iter().map(|c| Some(c.as_str())).collect();
    let rows = read_screen(
        &[(&cells[..10], true), (&cells[10..], false), (&[], false), (&[], false)],
        10,
    );
    assert!(rows[0].wrapped, "row 0 continues onto row 1");
    assert!(!rows[1].wrapped, "row 1 does not");

    // And the join actually finds a query straddling the edge.
    let m = find_joined(&rows, "wonderful");
    assert_eq!(m.len(), 1, "found across the wrap");
    assert_eq!(m[0], (0, 1), "spanning both rows");
}

#[test]
fn a_wide_char_pushed_over_a_wrap_leaves_no_gap_in_the_text() {
    // Five narrow cells, then a wide one that cannot fit in the last column: it
    // moves to the next row and leaves half a cell behind.
    let first = [Some("a"), Some("b"), Some("c"), Some("d"), Some("e"), None];
    let second = [Some("世"), None];
    let rows = read_screen(&[(&first, true), (&second, false), (&[], false)], 6);
    let joined: String = rows.iter().take(2).flat_map(|r| r.chars.iter().copied()).collect();
    assert_eq!(joined, "abcde世", "no spacer leaked into the text");
    assert_eq!(find_joined(&rows, "e世").len(), 1, "and a query across the wrap matches");
}

#[test]
fn jump_to_prompt_finds_marked_prompts() {
    // Five lines and the cursor's on four rows: two of history, no marks.
    assert_eq!(jump_to_prompt(&[false; 6], 2, 4, 2, -1), None);
    // Prompts at the first, fourth and seventh of seven lines.
    let marks = [true, false, false, true, false, false, true];
    let up = jump_to_prompt(&marks, 3, 4, 3, -1);
    assert!(up.is_some_and(|n| n >= 1), "expected a prompt above, got {up:?}");
    assert_eq!(up, Some(3), "the first line, three above the live bottom");
}
