//! Drawing the icon.

use giest::iconart::{layout, render, Corners, Palette, RRect, SIZES};

/// The tile's colour in each row of pixels.
fn tiles(size: u32, pal: &Palette) -> Vec<[u8; 3]> {
    let Some(l) = layout(size) else { return Vec::new() };
    let (ty0, ty1) = (l.tile.y0 as f32, l.tile.y1 as f32);
    (0..size)
        .map(|py| {
            if let Some(c) = pal.flat_tile() {
                return c;
            }
            let t = 1.0 - ((py as f32 + 0.5 - ty0) / (ty1 - ty0));
            let n = pal.tile.len();
            let pos = t.clamp(0.0, 1.0) * (n - 1) as f32;
            let i = (pos.floor() as usize).min(n - 2);
            let f = pos - i as f32;
            let (a, b) = (pal.tile[i], pal.tile[i + 1]);
            std::array::from_fn(|c| (a[c] as f32 + (b[c] as f32 - a[c] as f32) * f).round() as u8)
        })
        .collect()
}

#[test]
fn every_listed_size_has_a_table() {
    for s in SIZES {
        assert!(layout(s).is_some(), "{s}");
    }
    assert!(layout(17).is_none());
}

#[test]
fn a_palette_tints_tile_glyph_and_cursor() {
    let pal = Palette {
        tile: vec![[200, 0, 0]],
        tile_alpha: 255,
        glyph: [0, 200, 0],
        cursor: [0, 0, 200],
        rim: None,
    };
    let px = render(32, &pal, &tiles(32, &pal), 4).unwrap();
    let at = |x: usize, y: usize| &px[(y * 32 + x) * 4..(y * 32 + x) * 4 + 4];
    assert_eq!(at(4, 4), [200, 0, 0, 255], "tile interior");
    assert_eq!(at(22, 10), [0, 0, 200, 255], "cursor block");
    assert_eq!(at(19, 15), [0, 200, 0, 255], "stem");
    assert_eq!(at(0, 0)[3], 0, "outside the tile");
}

#[test]
fn gradient_runs_bottom_to_top_and_rim_frames_the_tile() {
    let pal = Palette {
        tile: vec![[0, 0, 0], [255, 255, 255]],
        tile_alpha: 255,
        glyph: [9, 9, 9],
        cursor: [9, 9, 9],
        rim: Some([1, 2, 3]),
    };
    let px = render(64, &pal, &tiles(64, &pal), 2).unwrap();
    let at = |x: usize, y: usize| px[(y * 64 + x) * 4];
    // Inside the rim, well away from the glyph: top brighter than bottom.
    assert!(at(8, 10) > at(8, 54), "top {} bottom {}", at(8, 10), at(8, 54));
    let rim = &px[(32 * 64 + 4) * 4..(32 * 64 + 4) * 4 + 3];
    assert_eq!(rim, [1, 2, 3], "left rim at mid-height");
}

#[test]
fn a_translucent_tile_keeps_straight_alpha() {
    let mut pal = Palette::official();
    pal.tile_alpha = 128;
    let px = render(32, &pal, &tiles(32, &pal), 4).unwrap();
    let i = (4 * 32 + 4) * 4;
    assert_eq!(&px[i..i + 4], [0x10, 0x18, 0x24, 128]);
}

#[test]
fn a_size_without_a_table_is_not_drawn() {
    assert_eq!(render(17, &Palette::official(), &[], 4), None);
    // No samples at all still means one.
    let pal = Palette::official();
    let one = render(16, &pal, &tiles(16, &pal), 1);
    assert_eq!(render(16, &pal, &tiles(16, &pal), 0), one);
    assert_eq!(one.unwrap().len(), 16 * 16 * 4);
}

#[test]
fn one_colour_stays_one_colour() {
    let pal = Palette {
        tile: vec![[7, 8, 9]],
        tile_alpha: 255,
        glyph: [7, 8, 9],
        cursor: [7, 8, 9],
        rim: None,
    };
    for px in render(48, &pal, &tiles(48, &pal), 3).unwrap().chunks(4) {
        assert!(px[3] == 0 || px[..3] == [7, 8, 9], "{px:?}");
    }
}

#[test]
fn rounded_corners_cut_the_rectangle() {
    let r = RRect {
        x0: 0,
        y0: 0,
        x1: 8,
        y1: 8,
        r: Corners { top_left: 4, top_right: 0, bottom_right: 0, bottom_left: 0 },
    };
    // In units of a pixel: the middle is inside, the rounded corner is not.
    assert!(r.contains(4, 4, 1));
    assert!(!r.contains(0, 0, 1));
    assert!(r.contains(7, 0, 1));
    assert!(!r.contains(8, 8, 1));
    let inner = r.inset(1);
    assert_eq!((inner.x0, inner.y0, inner.x1, inner.y1), (1, 1, 7, 7));
    assert_eq!(inner.r.top_left, 3);
    assert_eq!(inner.r.top_right, 0);
}

#[test]
fn the_bowl_ends_on_the_stem() {
    for size in SIZES {
        let l = layout(size).unwrap();
        assert_eq!(l.bowl.x1, l.stem.x0, "{size}");
        assert_eq!((l.bowl.r.top_right, l.bowl.r.bottom_right), (0, 0), "{size}");
        assert_eq!(l.cursor.y0, l.bowl.y0, "{size}");
        for r in [l.tile, l.bowl, l.counter, l.stem, l.tail, l.cursor] {
            assert!(0 <= r.x0 && r.x0 < r.x1 && r.x1 <= size as i32, "{size} {r:?}");
            assert!(0 <= r.y0 && r.y0 < r.y1 && r.y1 <= size as i32, "{size} {r:?}");
        }
    }
}

#[test]
fn the_smallest_icon_has_no_arcs() {
    let pal = Palette::official();
    let px = render(16, &pal, &tiles(16, &pal), 4).unwrap();
    assert!(px.chunks(4).all(|p| p[3] == 0 || p[3] == 255));
    // The letter at 16 pixels: a closed bowl and its stem.
    let glyph = |x: usize, y: usize| px[(y * 16 + x) * 4..(y * 16 + x) * 4 + 3] == pal.glyph;
    assert!((3..10).all(|x| glyph(x, 4)) && (3..10).all(|x| glyph(x, 7)));
    assert!(glyph(3, 5) && !glyph(4, 5) && !glyph(7, 5) && glyph(8, 5) && glyph(9, 5));
}

#[test]
fn a_partial_pixel_has_the_tiles_colour() {
    let pal = Palette::official();
    for size in SIZES {
        let px = render(size, &pal, &tiles(size, &pal), 4).unwrap();
        for p in px.chunks(4).filter(|p| 0 < p[3] && p[3] < 255) {
            assert_eq!(p[..3], pal.tile[0], "{size}");
        }
    }
}

#[test]
fn large_shapes_are_sampled_too() {
    let r = RRect {
        x0: i32::MIN,
        y0: i32::MIN,
        x1: i32::MAX,
        y1: i32::MAX,
        r: Corners { top_left: i32::MAX, top_right: 0, bottom_right: 0, bottom_left: 0 },
    };
    let u = i32::MAX as i64;
    assert!(r.contains(0, 0, u));
    assert!(!r.contains(i32::MIN as i64 * u, i32::MIN as i64 * u, u));
    assert!(!r.contains(i64::MAX, 0, u));
}
