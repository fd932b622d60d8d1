//! The terminal model: images, cells, rows and the selection.

use giest::engine::cells::{
    apply_bold_color, cell_colors, copy_cell, is_graphics_element, map_underline, readable_fg,
    resolve_color, CellRead, Colors, Style, StyleColor, Underline,
};
use giest::engine::images::{
    evict_absent, to_rgba, walk_placements, Compression, Graphics, ImageFormat, ImageRead,
    PlacementRead, RenderInfo,
};
use giest::engine::screen::{
    cursor_at_prompt, dynamic_colors, encoder_size, jump_to_prompt, pasted, row_text, screen_text,
    scrollback_limit, CellText, RowPrompt, ScreenRow,
};
use giest::engine::selection::SelectionState;
use giest::engine::snapshot::{
    copy_grid, cursor_shape, refill, refill_over_row, CursorVisual, FrameRead, LastGrid, RowRead,
};
use giest::engine::{
    BoldColor, Cell, CursorShape, GridSnapshot, ImageData, KeyMods, MouseAction, MouseInput, Rgb,
    UnderlineStyle,
};
use std::collections::HashMap;
use std::sync::Arc;

// ---------------------------------------------------------------- images

#[test]
fn rgb_expands_to_opaque_rgba() {
    let src = [1, 2, 3, 4, 5, 6];
    let got = to_rgba(ImageFormat::Rgb, Compression::Raw, 2, 1, &src).unwrap();
    assert_eq!(got, vec![1, 2, 3, 0xff, 4, 5, 6, 0xff]);
}

#[test]
fn gray_and_gray_alpha_expand_to_rgba() {
    let got = to_rgba(ImageFormat::Gray, Compression::Raw, 2, 1, &[9, 200]).unwrap();
    assert_eq!(got, vec![9, 9, 9, 0xff, 200, 200, 200, 0xff]);
    let got = to_rgba(ImageFormat::GrayAlpha, Compression::Raw, 1, 1, &[9, 128]).unwrap();
    assert_eq!(got, vec![9, 9, 9, 128]);
}

#[test]
fn rgba_is_copied_and_wrong_length_rejected() {
    let src = [1, 2, 3, 4];
    assert_eq!(
        to_rgba(ImageFormat::Rgba, Compression::Raw, 1, 1, &src).unwrap(),
        src.to_vec()
    );
    // One byte short for a 1x1 RGBA image.
    assert!(to_rgba(ImageFormat::Rgba, Compression::Raw, 1, 1, &src[..3]).is_none());
    // Dimensions that don't match the buffer at all.
    assert!(to_rgba(ImageFormat::Rgb, Compression::Raw, 100, 100, &src).is_none());
}

#[test]
fn png_and_compressed_data_are_rejected() {
    // Both are resolved by the VT engine before storage, so reaching here
    // means something is wrong; refuse rather than misinterpret the bytes.
    assert!(to_rgba(ImageFormat::Png, Compression::Raw, 1, 1, &[0; 4]).is_none());
    assert!(to_rgba(ImageFormat::Rgba, Compression::ZlibDeflate, 1, 1, &[0; 4]).is_none());
}

fn pixel() -> Arc<ImageData> {
    Arc::new(ImageData { width: 1, height: 1, rgba: vec![0; 4] })
}

#[test]
fn evict_absent_drops_unseen_ids() {
    let mut cache = HashMap::from([(1, pixel()), (2, pixel()), (3, pixel())]);
    evict_absent(&mut cache, &[1, 3]);
    assert_eq!(cache.len(), 2);
    assert!(cache.contains_key(&1) && cache.contains_key(&3));
    // Nothing seen at all clears the cache: that's a deleted-everything frame.
    evict_absent(&mut cache, &[]);
    assert!(cache.is_empty());
}

#[test]
fn an_image_that_is_shown_twice_saves_no_other() {
    let kept = pixel();
    let mut cache = HashMap::from([(1, kept.clone()), (2, pixel())]);
    evict_absent(&mut cache, &[1, 1]);
    assert_eq!(cache.len(), 1);
    assert!(Arc::ptr_eq(&cache[&1], &kept));
}

#[test]
fn sizes_that_overflow_are_rejected() {
    assert!(to_rgba(ImageFormat::Gray, Compression::Raw, u32::MAX, u32::MAX, &[]).is_none());
    assert!(to_rgba(ImageFormat::Other, Compression::Raw, 1, 1, &[0; 4]).is_none());
    assert!(to_rgba(ImageFormat::Rgba, Compression::Other, 1, 1, &[0; 4]).is_none());
}

fn info() -> RenderInfo {
    RenderInfo {
        pixel_width: 40,
        pixel_height: 20,
        grid_cols: 4,
        grid_rows: 2,
        viewport_col: 3,
        viewport_row: -1,
        viewport_visible: true,
        source_x: 0,
        source_y: 0,
        source_width: 1,
        source_height: 1,
    }
}

fn placement(id: u32, z: i32, data: &[u8]) -> PlacementRead<'_> {
    PlacementRead {
        is_virtual: Some(false),
        image_id: Some(id),
        placement_id: Some(7),
        x_offset: Some(1),
        y_offset: Some(2),
        z: Some(z),
        image: Some(ImageRead {
            width: Some(1),
            height: Some(1),
            format: Some(ImageFormat::Rgb),
            compression: Some(Compression::Raw),
            data: Some(data),
        }),
        info: Some(info()),
    }
}

#[test]
fn placements_are_listed_back_to_front_and_their_pixels_shared() {
    let rgb = [1, 2, 3];
    let list = [placement(2, 5, &rgb), placement(1, -1, &rgb), placement(3, 5, &rgb)];
    let (mut cache, mut seen, mut out) = (HashMap::new(), Vec::new(), Vec::new());
    assert!(walk_placements(Graphics::Listed(&list), &mut cache, &mut seen, &mut out).is_ok());
    let order: Vec<u32> = out.iter().map(|p| p.image_id).collect();
    assert_eq!(order, vec![1, 2, 3]);
    assert_eq!(out[0].data.rgba, vec![1, 2, 3, 255]);
    assert_eq!((out[0].col, out[0].row, out[0].dest_w, out[0].dest_h), (3, -1, 40, 20));
    assert_eq!((out[0].x_offset, out[0].y_offset, out[0].z), (1, 2, -1));
    let first = out[0].data.clone();
    // The next frame copies nothing: the same pixels are shown again.
    assert!(walk_placements(Graphics::Listed(&list), &mut cache, &mut seen, &mut out).is_ok());
    assert_eq!(out.len(), 3);
    assert!(Arc::ptr_eq(&first, &out[0].data));
}

#[test]
fn a_cached_image_that_is_not_whole_is_copied_anew() {
    let rgb = [1, 2, 3];
    let list = [placement(2, 0, &rgb)];
    let cut = Arc::new(ImageData { width: 1, height: 1, rgba: vec![9, 9] });
    let mut cache = HashMap::from([(2, cut.clone()), (8, cut)]);
    let (mut seen, mut out) = (Vec::new(), Vec::new());
    assert!(walk_placements(Graphics::Listed(&list), &mut cache, &mut seen, &mut out).is_ok());
    assert_eq!(out[0].data.rgba, vec![1, 2, 3, 255]);
    assert_eq!(cache.keys().copied().collect::<Vec<u32>>(), vec![2], "what is not shown is dropped");
    assert_eq!(cache[&2].rgba.len(), 4);
    assert!(walk_placements(Graphics::Disabled, &mut cache, &mut seen, &mut out).is_ok());
    assert!(out.is_empty() && cache.is_empty());
}

#[test]
fn placements_without_an_image_are_passed_over() {
    let rgb = [1, 2, 3];
    let mut gone = placement(1, 0, &rgb);
    gone.image = None;
    let mut unplaced = placement(2, 0, &rgb);
    unplaced.is_virtual = Some(true);
    let short = placement(4, 0, &rgb[..2]);
    let good = placement(5, 0, &rgb);
    let list = [gone, unplaced, short, good];
    let (mut cache, mut seen, mut out) = (HashMap::new(), Vec::new(), Vec::new());
    assert!(walk_placements(Graphics::Listed(&list), &mut cache, &mut seen, &mut out).is_ok());
    assert_eq!(out.iter().map(|p| p.image_id).collect::<Vec<_>>(), vec![5]);
    // Graphics that are off show nothing, and forget what was kept.
    assert!(walk_placements(Graphics::Disabled, &mut cache, &mut seen, &mut out).is_ok());
    assert!(out.is_empty());
    assert!(walk_placements(Graphics::Unreadable, &mut cache, &mut seen, &mut out).is_err());
}

// ---------------------------------------------------------------- cells

fn palette() -> [Rgb; 256] {
    std::array::from_fn(|i| Rgb::new(i as u8, 0, 0))
}

const FG: Rgb = Rgb { r: 200, g: 200, b: 200 };
const BG: Rgb = Rgb { r: 10, g: 10, b: 10 };

fn colors(p: &[Rgb; 256], bold: BoldColor) -> Colors<'_> {
    Colors { default_fg: FG, default_bg: BG, palette: p, bold }
}

fn style() -> Style {
    Style {
        fg_color: StyleColor::Unset,
        underline: Underline::Off,
        underline_color: StyleColor::Unset,
        bold: false,
        italic: false,
        faint: false,
        blink: false,
        inverse: false,
        invisible: false,
        strikethrough: false,
        overline: false,
    }
}

fn read(text: &str) -> CellRead {
    CellRead { style: style(), fg: None, bg: None, text: text.chars().collect(), readable: FG }
}

#[test]
fn a_cell_is_copied_with_its_style() {
    let p = palette();
    let mut s = style();
    s.bold = true;
    s.underline = Underline::Curly;
    s.underline_color = StyleColor::Palette(9);
    s.strikethrough = true;
    let r = CellRead { style: s, bg: Some(Rgb::new(1, 1, 1)), ..read("e\u{301}") };
    let mut c = Cell::default();
    copy_cell(&r, &colors(&p, BoldColor::Off), &mut c);
    assert_eq!(c.text.as_str(), "e\u{301}");
    assert!(c.bold && c.strikethrough && !c.italic && c.bg_explicit);
    assert_eq!(c.underline, UnderlineStyle::Curly);
    assert_eq!(c.underline_color, Some(Rgb::new(9, 0, 0)));
    assert_eq!((c.fg, c.bg), (FG, Rgb::new(1, 1, 1)));
    assert_eq!(c.clone().text.as_str(), "e\u{301}");
    c.blank();
    assert_eq!(c.text.as_str(), "");
    assert!(!c.bold && !c.bg_explicit);
}

#[test]
fn inverse_swaps_and_the_default_background_is_not_explicit() {
    let p = palette();
    let mut s = style();
    s.inverse = true;
    let c = colors(&p, BoldColor::Off);
    assert_eq!(cell_colors(&s, Some(Rgb::new(1, 2, 3)), None, &c), (BG, Rgb::new(1, 2, 3)));
    let mut cell = Cell::default();
    copy_cell(&read("x"), &c, &mut cell);
    assert!(!cell.bg_explicit && !cell.inverse);
}

#[test]
fn bold_follows_its_policy() {
    let p = palette();
    let fixed = Rgb::new(9, 9, 9);
    let bold = |raw, policy| apply_bold_color(raw, FG, FG, &p, policy);
    assert_eq!(bold(StyleColor::Palette(1), BoldColor::Bright), p[9]);
    assert_eq!(bold(StyleColor::Palette(9), BoldColor::Bright), FG);
    assert_eq!(bold(StyleColor::Unset, BoldColor::Color(fixed)), fixed);
    assert_eq!(bold(StyleColor::Palette(3), BoldColor::Color(fixed)), p[11]);
    let mut s = style();
    s.bold = true;
    s.fg_color = StyleColor::Palette(3);
    let kept = cell_colors(&s, Some(p[3]), None, &colors(&p, BoldColor::Off));
    assert_eq!(kept, (p[3], BG));
    let bright = cell_colors(&s, Some(p[3]), None, &colors(&p, BoldColor::Bright));
    assert_eq!(bright, (p[11], BG));
    assert_eq!(resolve_color(StyleColor::Palette(4), &p), Some(p[4]));
    assert_eq!(resolve_color(StyleColor::Unset, &p), None);
    assert_eq!(map_underline(Underline::Off), UnderlineStyle::Off);
    assert_eq!(map_underline(Underline::Other), UnderlineStyle::Single);
    assert_eq!(map_underline(Underline::Dashed), UnderlineStyle::Dashed);
}

#[test]
fn unreadable_text_turns_black_or_white() {
    assert_eq!(readable_fg(FG, true, true), FG);
    assert_eq!(readable_fg(FG, false, true), Rgb::new(255, 255, 255));
    assert_eq!(readable_fg(FG, false, false), Rgb::new(0, 0, 0));
    assert!(is_graphics_element(&['\u{2588}']));
    assert!(is_graphics_element(&['\u{e0b0}']));
    assert!(!is_graphics_element(&['a']));
}

// ---------------------------------------------------------------- frames

fn frame<'a>(p: &'a [Rgb; 256], lines: &'a [RowRead]) -> FrameRead<'a> {
    FrameRead {
        cols: 3,
        rows: 2,
        foreground: FG,
        background: BG,
        cursor: None,
        palette: p,
        cursor_visible: true,
        cursor_blinking: false,
        cursor_visual: CursorVisual::Bar,
        cursor_at: Some((1, 1)),
        lines,
        bold: BoldColor::Off,
    }
}

#[test]
fn a_frame_fills_the_grid() {
    let p = palette();
    let lines = [
        RowRead { selection: Some((1, 1)), cells: vec![read("a"), read("b")], broken: false },
        RowRead { selection: None, cells: vec![read("c")], broken: false },
    ];
    let mut g = GridSnapshot::default();
    assert!(refill(&mut g, &frame(&p, &lines)).is_ok());
    let text = |x, y| g.cell(x, y).unwrap().text.as_str().to_string();
    assert_eq!((text(0, 0), text(1, 0), text(2, 0), text(0, 1)), ("a".into(), "b".into(), "".into(), "c".into()));
    assert!(g.cell(1, 0).unwrap().selected && !g.cell(0, 0).unwrap().selected);
    assert!(g.cell(3, 0).is_none() && g.cell(0, 2).is_none());
    assert_eq!((g.cursor_x, g.cursor_y, g.cursor_shape), (1, 1, CursorShape::Bar));
    assert_eq!(cursor_shape(CursorVisual::Other), CursorShape::Block);
    assert_eq!(cursor_shape(CursorVisual::BlockHollow), CursorShape::HollowBlock);
}

#[test]
fn a_cell_that_cannot_be_read_stops_the_frame() {
    let p = palette();
    let lines = [
        RowRead { selection: None, cells: vec![read("a")], broken: true },
        RowRead { selection: None, cells: vec![read("c")], broken: false },
    ];
    let mut g = GridSnapshot::default();
    assert!(refill(&mut g, &frame(&p, &lines)).is_err());
    assert_eq!(g.cell(0, 0).unwrap().text.as_str(), "a");
    assert_eq!(g.cell(0, 1).unwrap().text.as_str(), "");
    let mut over = Vec::new();
    let row = Some(RowRead { selection: None, cells: vec![read("z")], broken: false });
    assert!(refill_over_row(&mut over, 2, &row, &colors(&p, BoldColor::Off)).is_ok());
    assert_eq!(over.len(), 2);
    assert_eq!(over[0].text.as_str(), "z");
}

fn assert_same_grid(a: &GridSnapshot, b: &GridSnapshot) {
    assert_eq!((a.cols, a.rows, a.cells.len()), (b.cols, b.rows, b.cells.len()));
    assert_eq!((a.cursor_x, a.cursor_y, a.cursor_shape), (b.cursor_x, b.cursor_y, b.cursor_shape));
    assert_eq!((a.cursor_visible, a.cursor_blinking), (b.cursor_visible, b.cursor_blinking));
    assert_eq!(a.cursor_color, b.cursor_color);
    assert_eq!((a.default_fg, a.default_bg, a.has_blink), (b.default_fg, b.default_bg, b.has_blink));
    for (x, y) in a.cells.iter().zip(&b.cells) {
        assert_eq!(x.text.as_str(), y.text.as_str());
        assert_eq!((x.fg, x.bg, x.blink, x.selected), (y.fg, y.bg, y.blink, y.selected));
    }
}

#[test]
fn an_unchanged_terminal_shows_the_same() {
    let p = palette();
    let mut blinking = read("b");
    blinking.style.blink = true;
    let lines = [RowRead { selection: None, cells: vec![read("a"), blinking], broken: false }];
    let mut f = frame(&p, &lines);
    f.cursor_at = None;
    let mut last = LastGrid::default();
    let mut a = GridSnapshot::default();
    a.cursor_x = 2;
    assert!(!last.repeat(&mut a, false, true, 3, 2), "nothing was drawn yet");
    assert!(last.draw(&mut a, &f).is_ok());
    assert!(a.has_blink && a.cursor_x == 2);
    // Whatever the next snapshot held, it shows the same: an empty grid, one of
    // another size, and one of the same size that something else filled.
    let mut other = GridSnapshot::default();
    other.cols = 9;
    other.rows = 1;
    other.cells = vec![Cell::default(); 9];
    let junk = [
        RowRead { selection: Some((0, 2)), cells: vec![read("x"), read("y"), read("z")], broken: false },
        RowRead { selection: None, cells: vec![read("w")], broken: false },
    ];
    let mut foreign = GridSnapshot::default();
    foreign.over_row = vec![Cell::default(); 3];
    assert!(refill(&mut foreign, &frame(&p, &junk)).is_ok());
    assert_eq!(foreign.cell(0, 0).unwrap().text.as_str(), "x");
    for mut b in [GridSnapshot::default(), other, foreign, a.clone()] {
        let over = b.over_row.len();
        assert!(last.repeat(&mut b, false, true, 3, 2));
        assert_same_grid(&b, &a);
        assert_eq!(b.over_row.len(), over, "the row above is left alone");
    }
}

#[test]
fn a_changed_terminal_is_read_again() {
    let p = palette();
    let lines = [RowRead { selection: None, cells: vec![read("a")], broken: false }];
    let mut last = LastGrid::default();
    let mut a = GridSnapshot::default();
    assert!(last.draw(&mut a, &frame(&p, &lines)).is_ok());
    let mut b = GridSnapshot::default();
    assert!(!last.repeat(&mut b, true, true, 3, 2), "the viewport moved");
    assert!(!last.repeat(&mut b, false, false, 3, 2), "something was written");
    assert!(!last.repeat(&mut b, false, true, 4, 2) && !last.repeat(&mut b, false, true, 3, 1));
    assert!(b.cells.is_empty(), "and nothing was filled");
    let lines = [RowRead { selection: None, cells: vec![read("n")], broken: false }];
    assert!(last.draw(&mut b, &frame(&p, &lines)).is_ok());
    assert!(last.repeat(&mut a, false, true, 3, 2));
    assert_eq!(a.cell(0, 0).unwrap().text.as_str(), "n");
}

#[test]
fn a_broken_frame_is_not_repeated() {
    let p = palette();
    let whole = [RowRead { selection: None, cells: vec![read("a")], broken: false }];
    let cut = [RowRead { selection: None, cells: vec![read("b")], broken: true }];
    let mut last = LastGrid::default();
    let mut g = GridSnapshot::default();
    assert!(last.draw(&mut g, &frame(&p, &whole)).is_ok());
    assert!(last.draw(&mut g, &frame(&p, &cut)).is_err());
    assert!(!last.repeat(&mut g, false, true, 3, 2));
    assert!(last.draw(&mut g, &frame(&p, &whole)).is_ok());
    assert!(last.repeat(&mut g, false, true, 3, 2));
}

#[test]
fn a_copied_grid_shows_what_it_was_copied_from() {
    let p = palette();
    let lines = [RowRead { selection: Some((0, 0)), cells: vec![read("q")], broken: false }];
    let mut from = GridSnapshot::default();
    assert!(refill(&mut from, &frame(&p, &lines)).is_ok());
    let mut to = GridSnapshot::default();
    copy_grid(&mut to, &from);
    assert_same_grid(&to, &from);
    assert_eq!(to.cell(0, 0).unwrap().text.as_str(), "q");
}

// ---------------------------------------------------------------- rows

#[test]
fn a_row_reads_as_text_with_its_columns() {
    let cells = [
        CellText::Cluster(&['a']),
        CellText::Cluster(&[]),
        CellText::Cluster(&['\u{4e2d}']),
        CellText::Spacer,
        CellText::Cluster(&['e', '\u{301}']),
        CellText::Unreadable,
        CellText::Cluster(&[]),
    ];
    let r = row_text(4, &cells, true);
    assert_eq!(r.chars, vec!['a', ' ', '\u{4e2d}', 'e', '\u{301}']);
    assert_eq!(r.cols, vec![0, 1, 2, 4, 4]);
    assert_eq!((r.row, r.wrapped), (4, true));
    let rows = [
        ScreenRow { cells: &cells[..1], wrapped: Some(true) },
        ScreenRow { cells: &cells[1..2], wrapped: None },
    ];
    let t = screen_text(&rows);
    assert_eq!((t[0].row, t[0].wrapped), (0, true));
    assert_eq!((t[1].row, t[1].wrapped, t[1].chars.len()), (1, false, 0));
}

#[test]
fn prompts_are_jumped_to_by_count() {
    // Eight rows of history over four on screen; prompts on three of them.
    let mut marks = [false; 12];
    marks[1] = true;
    marks[4] = true;
    marks[9] = true;
    assert_eq!(jump_to_prompt(&marks, 8, 4, 8, -1), Some(4));
    assert_eq!(jump_to_prompt(&marks, 8, 4, 8, -2), Some(7));
    assert_eq!(jump_to_prompt(&marks, 8, 4, 8, -3), None);
    assert_eq!(jump_to_prompt(&marks, 8, 4, 1, 1), Some(4));
    assert_eq!(jump_to_prompt(&marks, 8, 4, 1, 2), Some(0));
    assert_eq!(jump_to_prompt(&marks, 8, 4, 1, 3), None);
    assert_eq!(jump_to_prompt(&marks, 8, 4, 8, 0), None);
    assert_eq!(cursor_at_prompt(Some(RowPrompt::Continuation)), Some(true));
    assert_eq!(cursor_at_prompt(Some(RowPrompt::Unmarked)), Some(false));
    assert_eq!(cursor_at_prompt(None), None);
}

#[test]
fn small_answers_about_the_terminal() {
    assert_eq!(scrollback_limit(usize::MAX), None);
    assert_eq!(scrollback_limit(7), Some(7));
    assert_eq!(pasted(Some(2), vec![1, 2, 3], vec![9]), vec![1, 2]);
    assert_eq!(pasted(None, vec![1, 2, 3], vec![9]), vec![9]);
    let (fg, bg, cursor) = dynamic_colors(None, Some(BG), None);
    assert_eq!((fg, bg, cursor), (Rgb::new(0xc5, 0xc8, 0xc6), BG, None));
    let m = MouseInput {
        action: MouseAction::Press,
        button: None,
        pos_px: (1, 1),
        cell_px: (0, 20),
        screen_px: (800, 0),
        mods: KeyMods { shift: false, ctrl: false, alt: false, sup: false },
    };
    let s = encoder_size(&m);
    assert_eq!((s.screen_width, s.screen_height, s.cell_width, s.cell_height), (800, 1, 1, 20));
}

// ---------------------------------------------------------------- selection

#[test]
fn a_selection_is_begun_dragged_and_dropped() {
    let mut s: SelectionState<u8> = SelectionState::new();
    assert!(s.ends().is_none());
    assert!(!s.clear() && !s.take_moved());
    s.begin(Some(1));
    assert!(!s.drag(Some((Some(1), Some(4))), true));
    assert!(s.rectangle && s.installed);
    assert_eq!(s.ends(), Some((&1, &4)));
    assert!(s.take_moved() && !s.take_moved());
    // Moving an end keeps the block; a word select clears it.
    assert_eq!(s.adjust(Some(((Some(1), Some(5)), Some(12)))), Some(12));
    assert!(s.rectangle);
    assert!(s.select_extent(Some((Some(2), Some(3)))));
    assert!(!s.rectangle);
    assert!(!s.select_extent(None) && s.installed);
    // An anchor that lost its cell drops the selection.
    assert!(s.drag(None, false));
    assert!(s.ends().is_none() && s.take_moved());
    assert_eq!(s.adjust(None), None);
    s.scrolled();
    assert!(s.take_moved());
}
