//! The application's icon.

use giest::engine::png_decode::{accept_frame, decode_png, rgba_len, PngFrame, MAX_DECODED_BYTES};
use giest::engine::Rgb;
use giest::icon::{
    accept_icon, configure, decode, fit_256, frame_rgb, source_for, AppIcon, IconChange, IconFrame,
    IconSettings, Source,
};
use giest::iconart::{layout, render, Palette};

fn settings(app_icon: AppIcon) -> IconSettings {
    IconSettings {
        app_icon,
        icon_frame: IconFrame::Aluminum,
        icon_ghost_color: None,
        icon_screen_color: Vec::new(),
        custom_icon: None,
    }
}

#[test]
fn official_is_the_default_and_custom_without_a_path_falls_back() {
    assert_eq!(source_for(&settings(AppIcon::Official)), Source::Official);
    assert_eq!(source_for(&settings(AppIcon::Custom)), Source::Official);
    let mut c = settings(AppIcon::Custom);
    c.custom_icon = Some("C:\\x.png".to_string());
    assert_eq!(source_for(&c), Source::File("C:\\x.png".into()));
}

#[test]
fn custom_style_maps_screen_ghost_and_frame_onto_tile_glyph_and_rim() {
    let mut c = settings(AppIcon::CustomStyle);
    c.icon_ghost_color = Some(Rgb::new(0xff, 0, 0));
    c.icon_screen_color = vec![Rgb::new(0, 0, 0x10), Rgb::new(0, 0, 0xf0)];
    c.icon_frame = IconFrame::Plastic;
    let Source::Palette(p) = source_for(&c) else { panic!("palette") };
    assert_eq!(p.glyph, [0xFF, 0, 0]);
    assert_eq!(p.tile, vec![[0, 0, 0x10], [0, 0, 0xF0]]);
    assert_eq!(p.rim, Some(frame_rgb(IconFrame::Plastic)));
}

/// The tile's colour in each row of pixels, from bottom to top.
fn rows(size: u32, p: &Palette) -> Vec<[u8; 3]> {
    let l = layout(size).unwrap();
    let (top, bottom) = (l.tile.y0 as f32, l.tile.y1 as f32);
    let at = |t: f32| -> [u8; 3] {
        if let Some(c) = p.flat_tile() {
            return c;
        }
        let n = p.tile.len();
        let pos = t.clamp(0.0, 1.0) * (n - 1) as f32;
        let i = (pos.floor() as usize).min(n - 2);
        let f = pos - i as f32;
        let (a, b) = (p.tile[i], p.tile[i + 1]);
        std::array::from_fn(|c| (a[c] as f32 + (b[c] as f32 - a[c] as f32) * f).round() as u8)
    };
    (0..size).map(|y| at(1.0 - (y as f32 + 0.5 - top) / (bottom - top))).collect()
}

#[test]
fn every_preset_draws_a_256_icon_distinct_from_official() {
    let drawn = |p: &Palette, ss: u32| render(256, p, &rows(256, p), ss).unwrap();
    let official = drawn(&Palette::official(), 16);
    for preset in [
        AppIcon::Blueprint,
        AppIcon::Chalkboard,
        AppIcon::Microchip,
        AppIcon::Glass,
        AppIcon::Holographic,
        AppIcon::Paper,
        AppIcon::Retro,
        AppIcon::Xray,
    ] {
        let Source::Palette(p) = source_for(&settings(preset)) else { panic!("{preset:?}") };
        let icon = drawn(&p, 8);
        assert_eq!(icon.len(), 256 * 256 * 4, "{preset:?}");
        assert_ne!(icon, official, "{preset:?} looks official");
    }
}

#[test]
fn a_large_custom_image_is_shrunk_to_256_keeping_aspect() {
    let (w, h, px) = fit_256(1024, 512, vec![7; 1024 * 512 * 4]);
    assert_eq!((w, h), (256, 128));
    assert_eq!(px.len(), 256 * 128 * 4);
    let (w, h, _) = fit_256(64, 32, vec![0; 64 * 32 * 4]);
    assert_eq!((w, h), (64, 32));
}

#[test]
fn the_same_settings_keep_the_icon() {
    let mut current = None;
    assert_eq!(configure(&mut current, &settings(AppIcon::Retro)), IconChange::First);
    assert_eq!(configure(&mut current, &settings(AppIcon::Retro)), IconChange::Keep);
    assert_eq!(configure(&mut current, &settings(AppIcon::Paper)), IconChange::Replace);
    assert_eq!(current, Some(source_for(&settings(AppIcon::Paper))));
}

#[test]
fn fitting_picks_every_nth_pixel() {
    // Twice too wide: each second pixel of each second row.
    let w = 512usize;
    let px: Vec<u8> = (0..w * 2).flat_map(|i| [(i % 256) as u8, (i / w) as u8, 0, 255]).collect();
    let (fw, fh, got) = fit_256(512, 2, px.clone());
    assert_eq!((fw, fh), (256, 1));
    assert_eq!(&got[..4], &px[..4]);
    assert_eq!(&got[4..8], &px[8..12]);
    let again = fit_256(fw, fh, got.clone());
    assert_eq!(again, (256, 1, got));
}

/// A PNG of these pixels.
fn png_of(w: u32, h: u32, color: png::ColorType, data: &[u8]) -> Vec<u8> {
    let mut out = Vec::new();
    let mut enc = png::Encoder::new(&mut out, w, h);
    enc.set_color(color);
    enc.set_depth(png::BitDepth::Eight);
    let mut writer = enc.write_header().unwrap();
    writer.write_image_data(data).unwrap();
    writer.finish().unwrap();
    out
}

#[test]
fn a_png_is_decoded_to_its_pixels() {
    let rgba = [1, 2, 3, 4, 5, 6, 7, 8];
    let img = decode_png(&png_of(2, 1, png::ColorType::Rgba, &rgba)).unwrap();
    assert_eq!((img.width, img.height), (2, 1));
    assert_eq!(img.rgba, rgba);
    // A picture without alpha is expanded: that is what the decoder is asked for.
    let img = decode_png(&png_of(1, 1, png::ColorType::Rgb, &[9, 8, 7])).unwrap();
    assert_eq!(img.rgba, [9, 8, 7, 255]);
    // Gray stays gray, and is refused.
    assert!(decode_png(&png_of(1, 1, png::ColorType::Grayscale, &[9])).is_none());
    assert!(decode_png(b"not a png").is_none());
    assert!(decode_png(&[]).is_none());
}

#[test]
fn an_icon_is_decoded_only_from_rgba() {
    let rgba = [1, 2, 3, 4];
    let icon = decode(&png_of(1, 1, png::ColorType::Rgba, &rgba)).unwrap();
    assert_eq!((icon.width, icon.height, icon.rgba), (1, 1, rgba.to_vec()));
    assert!(decode(b"no").is_none());
}

fn frame(width: u32, height: u32, color_type: u8, bytes: usize) -> PngFrame {
    PngFrame {
        width,
        height,
        color_type,
        bit_depth: 8,
        buffer_size: bytes,
        buf: vec![5; bytes],
    }
}

#[test]
fn a_decoded_image_is_whole() {
    assert_eq!(rgba_len(2, 3), Some(24));
    assert_eq!(rgba_len(u32::MAX, u32::MAX), None);
    assert_eq!(MAX_DECODED_BYTES, 419_430_400);
    let img = accept_frame(frame(2, 1, 6, 8)).unwrap();
    assert_eq!((img.width, img.height, img.rgba), (2, 1, vec![5; 8]));
    // Another kind of pixel, or a buffer of another size, is refused.
    assert!(accept_frame(frame(2, 1, 2, 6)).is_none());
    assert!(accept_frame(frame(2, 1, 6, 7)).is_none());
    assert!(accept_icon(frame(1, 1, 0, 1)).is_none());
    assert!(accept_icon(frame(1, 1, 6, 4)).is_some());
}
