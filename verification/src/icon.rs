//! The window icon: what it is drawn from, and custom images cut down to size.

use crate::engine::png_decode::{
    image_bytes, is_rgba8, next_frame, output_buffer_size, png_buffer_size, png_frame, rgba_len,
    PngFrame, RGBA,
};
use crate::engine::Rgb;
use crate::iconart::{official_tile, Palette};
use vstd::prelude::*;

verus! {

/// The icon to show (`macos-icon`).
#[derive(Clone, Copy, Debug, PartialEq, Eq, Structural)]
pub enum AppIcon {
    Official,
    Blueprint,
    Chalkboard,
    Microchip,
    Glass,
    Holographic,
    Paper,
    Retro,
    Xray,
    /// Drawn in colours of the user's own.
    CustomStyle,
    /// Read from a file.
    Custom,
}

/// The frame of a custom-style icon (`macos-icon-frame`).
#[derive(Clone, Copy, Debug, PartialEq, Eq, Structural)]
pub enum IconFrame {
    Aluminum,
    Beige,
    Plastic,
    Chrome,
}

/// The settings that choose the icon.
pub struct IconSettings {
    pub app_icon: AppIcon,
    pub icon_frame: IconFrame,
    pub icon_ghost_color: Option<Rgb>,
    /// Gradient stops, bottom first.
    pub icon_screen_color: Vec<Rgb>,
    pub custom_icon: Option<String>,
}

/// What an icon is drawn from.
#[derive(Clone, Debug, PartialEq, Eq, Hash)]
pub enum Source {
    Official,
    Palette(Palette),
    File(String),
}

/// A palette, by its colours.
#[verifier::ext_equal]
pub ghost struct PaletteView {
    pub tile: Seq<[u8; 3]>,
    pub tile_alpha: u8,
    pub glyph: [u8; 3],
    pub cursor: [u8; 3],
    pub rim: Option<[u8; 3]>,
}

impl View for Palette {
    type V = PaletteView;

    open spec fn view(&self) -> PaletteView {
        PaletteView {
            tile: self.tile@,
            tile_alpha: self.tile_alpha,
            glyph: self.glyph,
            cursor: self.cursor,
            rim: self.rim,
        }
    }
}

/// A source, by what it is drawn from.
#[verifier::ext_equal]
pub ghost enum SourceView {
    Official,
    Palette(PaletteView),
    File(Seq<char>),
}

impl View for Source {
    type V = SourceView;

    open spec fn view(&self) -> SourceView {
        match self {
            Source::Official => SourceView::Official,
            Source::Palette(p) => SourceView::Palette(p@),
            Source::File(f) => SourceView::File(f@),
        }
    }
}

/// The three channels of a colour.
pub open spec fn channels(c: Rgb) -> [u8; 3] {
    [c.r, c.g, c.b]
}

/// The three channels of a colour.
fn rgb(c: Rgb) -> (r: [u8; 3])
    ensures
        r == channels(c),
{
    [c.r, c.g, c.b]
}

/// The rim colour of a frame.
pub open spec fn frame_color(f: IconFrame) -> [u8; 3] {
    match f {
        IconFrame::Aluminum => [0xB9, 0xBE, 0xC4],
        IconFrame::Beige => [0xD8, 0xCF, 0xB8],
        IconFrame::Plastic => [0x2A, 0x2A, 0x2E],
        IconFrame::Chrome => [0xE4, 0xE8, 0xEE],
    }
}

/// The rim colour of a frame.
pub fn frame_rgb(f: IconFrame) -> (r: [u8; 3])
    ensures
        r == frame_color(f),
{
    match f {
        IconFrame::Aluminum => [0xB9, 0xBE, 0xC4],
        IconFrame::Beige => [0xD8, 0xCF, 0xB8],
        IconFrame::Plastic => [0x2A, 0x2A, 0x2E],
        IconFrame::Chrome => [0xE4, 0xE8, 0xEE],
    }
}

/// An opaque palette.
pub open spec fn opaque(
    tile: Seq<[u8; 3]>,
    glyph: [u8; 3],
    cursor: [u8; 3],
    rim: Option<[u8; 3]>,
) -> SourceView {
    SourceView::Palette(PaletteView { tile, tile_alpha: 255, glyph, cursor, rim })
}

/// A source with an opaque palette.
fn pal(tile: Vec<[u8; 3]>, glyph: [u8; 3], cursor: [u8; 3], rim: Option<[u8; 3]>) -> (s: Source)
    ensures
        s@ == opaque(tile@, glyph, cursor, rim),
{
    Source::Palette(Palette { tile, tile_alpha: 255, glyph, cursor, rim })
}

/// The tile of a custom-style icon: the user's gradient, or the official tile.
pub open spec fn custom_tile(stops: Seq<Rgb>) -> Seq<[u8; 3]> {
    if stops.len() == 0 {
        seq![official_tile()]
    } else {
        stops.map_values(|c: Rgb| channels(c))
    }
}

/// What the settings ask the icon to be drawn from. Each named variant is a
/// palette; a custom style takes the user's colours where they are given; a
/// custom icon without a file is the official one.
pub open spec fn chosen(s: IconSettings) -> SourceView {
    match s.app_icon {
        AppIcon::Official => SourceView::Official,
        AppIcon::Blueprint => opaque(
            seq![[0x12u8, 0x3A, 0x7A], [0x1Du8, 0x5B, 0xB5]],
            [0xFF, 0xFF, 0xFF],
            [0x9C, 0xC9, 0xFF],
            Some([0xD8, 0xE6, 0xFF]),
        ),
        AppIcon::Chalkboard => opaque(
            seq![[0x1Fu8, 0x2A, 0x24], [0x2Eu8, 0x3D, 0x34]],
            [0xF2, 0xF2, 0xEA],
            [0xF6, 0xE2, 0x7A],
            Some([0x7A, 0x5A, 0x3A]),
        ),
        AppIcon::Microchip => opaque(
            seq![[0x0Bu8, 0x3B, 0x24], [0x13u8, 0x60, 0x3A]],
            [0xE8, 0xC7, 0x66],
            [0xF2, 0xD9, 0x8A],
            Some([0xB8, 0x96, 0x2E]),
        ),
        AppIcon::Glass => SourceView::Palette(
            PaletteView {
                tile: seq![[0x1Au8, 0x2A, 0x3A], [0x3Au8, 0x5A, 0x7A]],
                tile_alpha: 150,
                glyph: [0xFF, 0xFF, 0xFF],
                cursor: [0x8F, 0xD3, 0xFF],
                rim: Some([0xC8, 0xD8, 0xE8]),
            },
        ),
        AppIcon::Holographic => opaque(
            seq![[0x6Au8, 0x3F, 0xD8], [0xE2u8, 0x4B, 0xB8], [0x38u8, 0xD6, 0xE8]],
            [0xFF, 0xFF, 0xFF],
            [0xFF, 0xFF, 0xFF],
            Some([0xE6, 0xE6, 0xF0]),
        ),
        AppIcon::Paper => opaque(
            seq![[0xEDu8, 0xE6, 0xD6], [0xF7u8, 0xF3, 0xEA]],
            [0x2B, 0x2B, 0x2B],
            [0xC0, 0x39, 0x2B],
            Some([0xCF, 0xC6, 0xB0]),
        ),
        AppIcon::Retro => opaque(
            seq![[0x14u8, 0x14, 0x14]],
            [0xFF, 0xB0, 0x00],
            [0xFF, 0x7A, 0x00],
            Some(frame_color(IconFrame::Beige)),
        ),
        AppIcon::Xray => opaque(
            seq![[0x04u8, 0x12, 0x1F], [0x0Bu8, 0x2A, 0x44]],
            [0x9F, 0xE8, 0xFF],
            [0xFF, 0xFF, 0xFF],
            None,
        ),
        AppIcon::CustomStyle => opaque(
            custom_tile(s.icon_screen_color@),
            match s.icon_ghost_color {
                Some(c) => channels(c),
                None => [0xE6, 0xE8, 0xEB],
            },
            [0x6C, 0x8B, 0xFF],
            Some(frame_color(s.icon_frame)),
        ),
        AppIcon::Custom => match s.custom_icon {
            Some(p) => SourceView::File(p@),
            None => SourceView::Official,
        },
    }
}

/// What the settings ask the icon to be drawn from.
pub fn source_for(cfg: &IconSettings) -> (s: Source)
    ensures
        s@ == chosen(*cfg),
{
    match cfg.app_icon {
        AppIcon::Official => Source::Official,
        AppIcon::Blueprint => pal(
            vec![[0x12, 0x3A, 0x7A], [0x1D, 0x5B, 0xB5]],
            [0xFF, 0xFF, 0xFF],
            [0x9C, 0xC9, 0xFF],
            Some([0xD8, 0xE6, 0xFF]),
        ),
        AppIcon::Chalkboard => pal(
            vec![[0x1F, 0x2A, 0x24], [0x2E, 0x3D, 0x34]],
            [0xF2, 0xF2, 0xEA],
            [0xF6, 0xE2, 0x7A],
            Some([0x7A, 0x5A, 0x3A]),
        ),
        AppIcon::Microchip => pal(
            vec![[0x0B, 0x3B, 0x24], [0x13, 0x60, 0x3A]],
            [0xE8, 0xC7, 0x66],
            [0xF2, 0xD9, 0x8A],
            Some([0xB8, 0x96, 0x2E]),
        ),
        AppIcon::Glass => Source::Palette(
            Palette {
                tile: vec![[0x1A, 0x2A, 0x3A], [0x3A, 0x5A, 0x7A]],
                tile_alpha: 150,
                glyph: [0xFF, 0xFF, 0xFF],
                cursor: [0x8F, 0xD3, 0xFF],
                rim: Some([0xC8, 0xD8, 0xE8]),
            },
        ),
        AppIcon::Holographic => pal(
            vec![[0x6A, 0x3F, 0xD8], [0xE2, 0x4B, 0xB8], [0x38, 0xD6, 0xE8]],
            [0xFF, 0xFF, 0xFF],
            [0xFF, 0xFF, 0xFF],
            Some([0xE6, 0xE6, 0xF0]),
        ),
        AppIcon::Paper => pal(
            vec![[0xED, 0xE6, 0xD6], [0xF7, 0xF3, 0xEA]],
            [0x2B, 0x2B, 0x2B],
            [0xC0, 0x39, 0x2B],
            Some([0xCF, 0xC6, 0xB0]),
        ),
        AppIcon::Retro => pal(
            vec![[0x14, 0x14, 0x14]],
            [0xFF, 0xB0, 0x00],
            [0xFF, 0x7A, 0x00],
            Some(frame_rgb(IconFrame::Beige)),
        ),
        AppIcon::Xray => pal(
            vec![[0x04, 0x12, 0x1F], [0x0B, 0x2A, 0x44]],
            [0x9F, 0xE8, 0xFF],
            [0xFF, 0xFF, 0xFF],
            None,
        ),
        AppIcon::CustomStyle => {
            let off = Palette::official();
            let tile = if cfg.icon_screen_color.is_empty() {
                off.tile
            } else {
                stops(cfg.icon_screen_color.as_slice())
            };
            pal(
                tile,
                match cfg.icon_ghost_color {
                    Some(c) => rgb(c),
                    None => off.glyph,
                },
                off.cursor,
                Some(frame_rgb(cfg.icon_frame)),
            )
        },
        AppIcon::Custom => match &cfg.custom_icon {
            Some(p) => Source::File(p.as_str().to_owned()),
            None => Source::Official,
        },
    }
}

/// Gradient stops by their channels.
fn stops(colors: &[Rgb]) -> (out: Vec<[u8; 3]>)
    ensures
        out@ == colors@.map_values(|c: Rgb| channels(c)),
{
    let mut out: Vec<[u8; 3]> = Vec::new();
    let mut i: usize = 0;
    while i < colors.len()
        invariant
            i <= colors@.len(),
            out@ == colors@.take(i as int).map_values(|c: Rgb| channels(c)),
        decreases colors@.len() - i,
    {
        out.push(rgb(colors[i]));
        i += 1;
        assert(out@ =~= colors@.take(i as int).map_values(|c: Rgb| channels(c)));
    }
    assert(colors@.take(colors@.len() as int) =~= colors@);
    out
}

/// Whether two colours are one.
fn same_color(a: [u8; 3], b: [u8; 3]) -> (r: bool)
    ensures
        r == (a == b),
{
    let r = a[0] == b[0] && a[1] == b[1] && a[2] == b[2];
    if r {
        assert(a =~= b);
    }
    r
}

/// Whether two sources are drawn alike.
fn same_source(a: &Source, b: &Source) -> (r: bool)
    ensures
        r == (a@ == b@),
{
    match (a, b) {
        (Source::Official, Source::Official) => true,
        (Source::Palette(p), Source::Palette(q)) => {
            if p.tile_alpha != q.tile_alpha || !same_color(p.glyph, q.glyph) || !same_color(
                p.cursor,
                q.cursor,
            ) || p.tile.len() != q.tile.len() {
                return false;
            }
            let same_rim = match (p.rim, q.rim) {
                (Some(x), Some(y)) => same_color(x, y),
                (None, None) => true,
                _ => false,
            };
            if !same_rim {
                return false;
            }
            let mut i: usize = 0;
            while i < p.tile.len()
                invariant
                    i <= p.tile@.len(),
                    p.tile@.len() == q.tile@.len(),
                    forall|k: int| 0 <= k < i ==> p.tile@[k] == q.tile@[k],
                    a@ == SourceView::Palette(p@),
                    b@ == SourceView::Palette(q@),
                decreases p.tile@.len() - i,
            {
                if !same_color(p.tile[i], q.tile[i]) {
                    assert(p@.tile[i as int] != q@.tile[i as int]);
                    return false;
                }
                i += 1;
            }
            assert(p.tile@ =~= q.tile@);
            true
        },
        (Source::File(f), Source::File(g)) => crate::text::same_str(f.as_str(), g.as_str()),
        _ => false,
    }
}

/// What a change of settings means for the icon.
#[derive(Clone, Copy, Debug, PartialEq, Eq, Structural)]
pub enum IconChange {
    /// The icon stays as it is.
    Keep,
    /// Draw it; no window shows another one yet.
    First,
    /// Draw it and show it on the windows there are.
    Replace,
}

/// Take over the source that the settings ask for, and tell what it means for
/// the icon.
pub fn configure(current: &mut Option<Source>, cfg: &IconSettings) -> (c: IconChange)
    ensures
        *final(current) is Some,
        ((*final(current))->0)@ == chosen(*cfg),
        c == (match *old(current) {
            Some(s) => if s@ == chosen(*cfg) {
                IconChange::Keep
            } else {
                IconChange::Replace
            },
            None => IconChange::First,
        }),
{
    let src = source_for(cfg);
    let change = match &*current {
        Some(s) => {
            if same_source(s, &src) {
                return IconChange::Keep;
            }
            IconChange::Replace
        },
        None => IconChange::First,
    };
    *current = Some(src);
    change
}

/// Settings that ask for the icon shown change nothing, however often they are
/// applied.
pub proof fn law_same_settings_keep_the_icon(a: IconSettings, b: IconSettings)
    requires
        a.app_icon == b.app_icon,
        a.icon_frame == b.icon_frame,
        a.icon_ghost_color == b.icon_ghost_color,
        a.icon_screen_color@ == b.icon_screen_color@,
        a.custom_icon == b.custom_icon,
    ensures
        chosen(a) == chosen(b),
{
}

/// Every preset is drawn in colours, and no two presets in the same ones.
pub proof fn law_presets_differ(a: IconSettings, b: IconSettings)
    requires
        a.app_icon != b.app_icon,
        a.app_icon != AppIcon::Official && a.app_icon != AppIcon::Custom && a.app_icon
            != AppIcon::CustomStyle,
        b.app_icon != AppIcon::Official && b.app_icon != AppIcon::Custom && b.app_icon
            != AppIcon::CustomStyle,
    ensures
        chosen(a) is Palette,
        chosen(a) != chosen(b),
{
    let p = chosen(a)->Palette_0.tile[0];
    let q = chosen(b)->Palette_0.tile[0];
    assert(p@[0] != q@[0]);
}

/// An icon's pixels, straight alpha.
#[derive(Clone, Debug, PartialEq, Eq)]
pub struct IconData {
    pub rgba: Vec<u8>,
    pub width: u32,
    pub height: u32,
}

/// The icon a decoded frame is, where it is 8-bit RGBA.
pub open spec fn icon_of(f: (u32, u32, u8, u8, nat, Seq<u8>)) -> Option<(Seq<u8>, u32, u32)> {
    if is_rgba8(f) {
        Some((f.5.take(image_bytes(f.0, f.1) as int), f.0, f.1))
    } else {
        None
    }
}

/// The pixels and the size of an optional icon.
pub open spec fn opt_icon(d: Option<IconData>) -> Option<(Seq<u8>, u32, u32)> {
    match d {
        Some(i) => Some((i.rgba@, i.width, i.height)),
        None => None,
    }
}

/// Accept a decoded frame as an icon, where it is 8-bit RGBA.
pub fn accept_icon(f: PngFrame) -> (d: Option<IconData>)
    ensures
        opt_icon(d) == icon_of(f@),
{
    if f.color_type != RGBA || f.bit_depth != 8 {
        return None;
    }
    let held: usize = f.buf.len();
    match rgba_len(f.width, f.height) {
        Some(len) => {
            if held < len {
                return None;
            }
            let mut rgba = f.buf;
            rgba.truncate(len);
            Some(IconData { rgba, width: f.width, height: f.height })
        },
        None => None,
    }
}

/// Decode a PNG icon.
pub fn decode(bytes: &[u8]) -> (d: Option<IconData>)
    ensures
        opt_icon(d) == (match png_buffer_size(bytes@, usize::MAX as nat) {
            Some(n) => match png_frame(bytes@, n) {
                Some(f) => icon_of(f),
                None => None,
            },
            None => None,
        }),
{
    match output_buffer_size(bytes) {
        Some(n) => match next_frame(bytes, n) {
            Some(f) => accept_icon(f),
            None => None,
        },
        None => None,
    }
}

/// The longer side of an image.
pub open spec fn longest(w: u32, h: u32) -> u32 {
    if w > h {
        w
    } else {
        h
    }
}

/// A side of an image shrunk so that the longest side is 256.
pub open spec fn shrunk_side(side: u32, longest: u32) -> int {
    let s = side * 256 / (longest as int);
    if s < 1 {
        1
    } else {
        s
    }
}

/// The source pixel of place `i` in a row of `n` out of `m`.
pub open spec fn nearest(i: int, m: int, n: int) -> int {
    i * m / n
}

/// An image shrunk to at most 256 pixels a side: its size and its bytes.
pub open spec fn fitted(w: u32, h: u32, rgba: Seq<u8>) -> (int, int, Seq<u8>) {
    let side = longest(w, h);
    if side <= 256 {
        (w as int, h as int, rgba)
    } else {
        let (nw, nh) = (shrunk_side(w, side), shrunk_side(h, side));
        (
            nw,
            nh,
            Seq::new(
                (nw * nh * 4) as nat,
                |i: int|
                    rgba[(nearest(i / 4 / nw, h as int, nh) * w + nearest(i / 4 % nw, w as int, nw))
                        * 4 + i % 4],
            ),
        )
    }
}

proof fn lemma_shrunk_side(side: u32, longest: u32)
    requires
        0 < side <= longest,
        256 < longest,
    ensures
        1 <= shrunk_side(side, longest) <= 256,
        shrunk_side(longest, longest) == 256,
{
    let s = side as int;
    let l = longest as int;
    assert(0 <= s * 256 / l <= 256) by (nonlinear_arith)
        requires
            0 < s <= l,
    ;
    assert(l * 256 / l == 256) by (nonlinear_arith)
        requires
            0 < l,
    ;
}

proof fn lemma_nearest(i: int, m: int, n: int)
    requires
        0 <= i < n,
        0 < m,
    ensures
        0 <= nearest(i, m, n) < m,
        0 <= i * m < n * m,
{
    assert(0 <= i * m < n * m) by (nonlinear_arith)
        requires
            0 <= i < n,
            0 < m,
    ;
    assert(0 <= (i * m) / n < m) by (nonlinear_arith)
        requires
            0 <= i * m < n * m,
            0 < n,
    ;
}

/// Whether an image has pixels, all of them, and sides that scale in 32 bits.
pub open spec fn shrinkable(w: u32, h: u32, rgba: Seq<u8>) -> bool {
    &&& 0 < w
    &&& 0 < h
    &&& longest(w, h) * 256 <= u32::MAX
    &&& rgba.len() >= (w as int) * (h as int) * 4
}

/// Nearest-neighbour shrink of an image so that its longest side is at most
/// 256; a smaller image is kept as it is.
#[verifier::spinoff_prover]
pub fn fit_256(w: u32, h: u32, rgba: Vec<u8>) -> (r: (u32, u32, Vec<u8>))
    requires
        longest(w, h) > 256 ==> shrinkable(w, h, rgba@),
    ensures
        (r.0 as int, r.1 as int, r.2@) == fitted(w, h, rgba@),
{
    let side: u32 = if w > h {
        w
    } else {
        h
    };
    if side <= 256 {
        return (w, h, rgba);
    }
    proof {
        lemma_shrunk_side(w, side);
        lemma_shrunk_side(h, side);
    }
    let nw: u32 = if w * 256 / side < 1 {
        1
    } else {
        w * 256 / side
    };
    let nh: u32 = if h * 256 / side < 1 {
        1
    } else {
        h * 256 / side
    };
    let ghost want = fitted(w, h, rgba@).2;
    proof {
        assert(nw * nh <= 0x1_0000) by (nonlinear_arith)
            requires
                nw <= 256,
                nh <= 256,
        ;
        assert(0 <= nw * nh) by (nonlinear_arith)
            requires
                0 <= nw,
                0 <= nh,
        ;
        assert((w as int) * (h as int) >= 0) by (nonlinear_arith)
            requires
                w >= 0,
                h >= 0,
        ;
    }
    let total: usize = rgba.len();
    let mut out: Vec<u8> = Vec::with_capacity((nw * nh * 4) as usize);
    let mut y: u32 = 0;
    assert(0 * nw == 0);
    while y < nh
        invariant
            1 <= nw <= 256,
            1 <= nh <= 256,
            y <= nh,
            0 < w,
            0 < h,
            w * 256 <= u32::MAX,
            h * 256 <= u32::MAX,
            total == rgba@.len(),
            rgba@.len() >= (w as int) * (h as int) * 4,
            side > 256,
            side == longest(w, h),
            nw == shrunk_side(w, side),
            nh == shrunk_side(h, side),
            want == fitted(w, h, rgba@).2,
            want.len() == 4 * (nw * nh),
            out@.len() == 4 * (y * nw),
            forall|i: int| 0 <= i < out@.len() ==> #[trigger] out@[i] == want[i],
        decreases nh - y,
    {
        proof {
            lemma_nearest(y as int, h as int, nh as int);
            assert(nh * h <= 256 * h) by (nonlinear_arith)
                requires
                    nh <= 256,
                    h >= 0,
            ;
        }
        let sy: usize = (y * h / nh) as usize;
        let mut x: u32 = 0;
        while x < nw
            invariant
                1 <= nw <= 256,
                1 <= nh <= 256,
                y < nh,
                x <= nw,
                0 < w,
                0 < h,
                w * 256 <= u32::MAX,
                h * 256 <= u32::MAX,
                sy == nearest(y as int, h as int, nh as int),
                sy < h,
                total == rgba@.len(),
                rgba@.len() >= (w as int) * (h as int) * 4,
                side > 256,
                side == longest(w, h),
                nw == shrunk_side(w, side),
                nh == shrunk_side(h, side),
                want == fitted(w, h, rgba@).2,
                want.len() == 4 * (nw * nh),
                out@.len() == 4 * (y * nw + x),
                forall|i: int| 0 <= i < out@.len() ==> #[trigger] out@[i] == want[i],
            decreases nw - x,
        {
            proof {
                lemma_nearest(x as int, w as int, nw as int);
                assert(nw * w <= 256 * w) by (nonlinear_arith)
                    requires
                        nw <= 256,
                        w >= 0,
                ;
            }
            let sx: usize = (x * w / nw) as usize;
            proof {
                assert(0 <= sy * w + sx < h * w) by (nonlinear_arith)
                    requires
                        0 <= sy < h,
                        0 <= sx < w,
                ;
                assert(0 <= sy * w <= sy * w + sx) by (nonlinear_arith)
                    requires
                        0 <= sy,
                        0 <= sx,
                        0 <= w,
                ;
                assert(h * w == w * h) by (nonlinear_arith);
                assert((sy * w + sx + 1) * 4 <= rgba@.len());
            }
            let i: usize = (sy * w as usize + sx) * 4;
            let ghost n = out@.len() as int;
            out.push(rgba[i]);
            out.push(rgba[i + 1]);
            out.push(rgba[i + 2]);
            out.push(rgba[i + 3]);
            proof {
                lemma_place(x as int, y as int, nw as int, nh as int);
                assert forall|k: int| 0 <= k < 4 implies #[trigger] want[n + k] == rgba@[i + k] by {
                    assert((n + k) / 4 == y * nw + x);
                    assert((n + k) % 4 == k);
                }
                assert(want[n + 0] == rgba@[i + 0] && want[n + 1] == rgba@[i + 1] && want[n + 2]
                    == rgba@[i + 2] && want[n + 3] == rgba@[i + 3]);
            }
            x += 1;
        }
        assert(y * nw + nw == (y + 1) * nw) by (nonlinear_arith);
        y += 1;
    }
    assert(nh * nw == nw * nh) by (nonlinear_arith);
    assert(out@ =~= want);
    (nw, nh, out)
}

proof fn lemma_place(x: int, y: int, nw: int, nh: int)
    requires
        0 <= x < nw,
        0 <= y < nh,
    ensures
        0 <= y * nw + x < nw * nh,
        (y * nw + x) / nw == y,
        (y * nw + x) % nw == x,
{
    assert(0 <= y * nw + x < nw * nh) by (nonlinear_arith)
        requires
            0 <= x < nw,
            0 <= y < nh,
    ;
    vstd::arithmetic::div_mod::lemma_fundamental_div_mod_converse(y * nw + x, nw, y, x);
}

/// A shrunk image is at most 256 pixels a side, its longest side exactly so,
/// and holds all of its pixels.
pub proof fn law_fitted_image_is_small(w: u32, h: u32, rgba: Seq<u8>)
    requires
        0 < w,
        0 < h,
        longest(w, h) > 256,
    ensures
        1 <= fitted(w, h, rgba).0 <= 256,
        1 <= fitted(w, h, rgba).1 <= 256,
        w >= h ==> fitted(w, h, rgba).0 == 256,
        h >= w ==> fitted(w, h, rgba).1 == 256,
        fitted(w, h, rgba).2.len() == fitted(w, h, rgba).0 * fitted(w, h, rgba).1 * 4,
{
    lemma_shrunk_side(w, longest(w, h));
    lemma_shrunk_side(h, longest(w, h));
    let (nw, nh) = (fitted(w, h, rgba).0, fitted(w, h, rgba).1);
    assert(nw * nh * 4 >= 0) by (nonlinear_arith)
        requires
            nw >= 0,
            nh >= 0,
    ;
}

/// Shrinking what was shrunk changes nothing.
pub proof fn law_fitting_twice_is_fitting_once(w: u32, h: u32, rgba: Seq<u8>)
    requires
        0 < w,
        0 < h,
    ensures
        ({
            let (a, b, px) = fitted(w, h, rgba);
            fitted(a as u32, b as u32, px) == (a, b, px)
        }),
{
    if longest(w, h) > 256 {
        law_fitted_image_is_small(w, h, rgba);
    }
}

/// A colour as the number that its six hexadecimal digits spell.
pub open spec fn code(c: [u8; 3]) -> int {
    c[0] * 0x1_0000 + c[1] * 0x100 + c[2]
}

/// Whether a source is a palette of these colours: the stops of the tile, its
/// opacity, the glyph, the cursor and the rim.
pub open spec fn painted(
    s: SourceView,
    tile: Seq<int>,
    alpha: int,
    glyph: int,
    cursor: int,
    rim: Option<int>,
) -> bool {
    &&& s is Palette
    &&& s->Palette_0.tile.len() == tile.len()
    &&& forall|i: int| 0 <= i < tile.len() ==> code(#[trigger] s->Palette_0.tile[i]) == tile[i]
    &&& s->Palette_0.tile_alpha == alpha
    &&& code(s->Palette_0.glyph) == glyph
    &&& code(s->Palette_0.cursor) == cursor
    &&& s->Palette_0.rim is Some <==> rim is Some
    &&& rim is Some ==> code(s->Palette_0.rim->0) == rim->0
}

/// Each preset has its colours, whatever colours and frame the user asks for.
pub proof fn law_presets_have_their_colours(s: IconSettings)
    ensures
        s.app_icon == AppIcon::Blueprint ==> painted(
            chosen(s),
            seq![0x123A7A, 0x1D5BB5],
            255,
            0xFFFFFF,
            0x9CC9FF,
            Some(0xD8E6FF),
        ),
        s.app_icon == AppIcon::Chalkboard ==> painted(
            chosen(s),
            seq![0x1F2A24, 0x2E3D34],
            255,
            0xF2F2EA,
            0xF6E27A,
            Some(0x7A5A3A),
        ),
        s.app_icon == AppIcon::Microchip ==> painted(
            chosen(s),
            seq![0x0B3B24, 0x13603A],
            255,
            0xE8C766,
            0xF2D98A,
            Some(0xB8962E),
        ),
        s.app_icon == AppIcon::Glass ==> painted(
            chosen(s),
            seq![0x1A2A3A, 0x3A5A7A],
            150,
            0xFFFFFF,
            0x8FD3FF,
            Some(0xC8D8E8),
        ),
        s.app_icon == AppIcon::Holographic ==> painted(
            chosen(s),
            seq![0x6A3FD8, 0xE24BB8, 0x38D6E8],
            255,
            0xFFFFFF,
            0xFFFFFF,
            Some(0xE6E6F0),
        ),
        s.app_icon == AppIcon::Paper ==> painted(
            chosen(s),
            seq![0xEDE6D6, 0xF7F3EA],
            255,
            0x2B2B2B,
            0xC0392B,
            Some(0xCFC6B0),
        ),
        s.app_icon == AppIcon::Retro ==> painted(
            chosen(s),
            seq![0x141414],
            255,
            0xFFB000,
            0xFF7A00,
            Some(0xD8CFB8),
        ),
        s.app_icon == AppIcon::Xray ==> painted(
            chosen(s),
            seq![0x04121F, 0x0B2A44],
            255,
            0x9FE8FF,
            0xFFFFFF,
            None,
        ),
{
}

/// Each frame has its colour.
pub proof fn law_frames_have_their_colours()
    ensures
        code(frame_color(IconFrame::Aluminum)) == 0xB9BEC4,
        code(frame_color(IconFrame::Beige)) == 0xD8CFB8,
        code(frame_color(IconFrame::Plastic)) == 0x2A2A2E,
        code(frame_color(IconFrame::Chrome)) == 0xE4E8EE,
{
}

/// A custom style has the user's colours: as many stops as were given, each with
/// its red, green and blue, in order; the glyph's colour, and the frame's rim.
/// Where a colour is not given, it is the official icon's.
pub proof fn law_custom_style_has_the_users_colours(s: IconSettings, i: int)
    requires
        s.app_icon == AppIcon::CustomStyle,
    ensures
        chosen(s) is Palette,
        chosen(s)->Palette_0.tile_alpha == 255,
        s.icon_screen_color@.len() > 0 ==> chosen(s)->Palette_0.tile.len() == s.icon_screen_color@.len(),
        0 <= i < s.icon_screen_color@.len() ==> ({
            let c = s.icon_screen_color@[i];
            code(chosen(s)->Palette_0.tile[i]) == c.r * 0x1_0000 + c.g * 0x100 + c.b
        }),
        s.icon_screen_color@.len() == 0 ==> chosen(s)->Palette_0.tile == seq![official_tile()],
        s.icon_ghost_color is Some ==> ({
            let c = s.icon_ghost_color->0;
            code(chosen(s)->Palette_0.glyph) == c.r * 0x1_0000 + c.g * 0x100 + c.b
        }),
        s.icon_ghost_color is None ==> code(chosen(s)->Palette_0.glyph) == 0xE6E8EB,
        code(chosen(s)->Palette_0.cursor) == 0x6C8BFF,
        chosen(s)->Palette_0.rim == Some(frame_color(s.icon_frame)),
{
}

/// A custom icon is read from its file; without one the icon is the official one,
/// as if that had been asked for.
pub proof fn law_custom_icon_is_its_file(s: IconSettings)
    requires
        s.app_icon == AppIcon::Custom,
    ensures
        s.custom_icon is Some ==> chosen(s) == SourceView::File(s.custom_icon->0@),
        s.custom_icon is None ==> chosen(s) == chosen(
            IconSettings { app_icon: AppIcon::Official, ..s },
        ),
        chosen(IconSettings { app_icon: AppIcon::Official, ..s }) == SourceView::Official,
{
}

/// A pixel of a shrunk image is a pixel of the image, all four bytes of it: the
/// one over which it lies when both are laid over each other. The sides shrink
/// alike, down to whole pixels, but to no less than one.
pub proof fn law_shrunk_pixel_is_the_one_below(
    w: u32,
    h: u32,
    rgba: Seq<u8>,
    x: int,
    y: int,
    c: int,
)
    requires
        0 < w,
        0 < h,
        longest(w, h) > 256,
        0 <= x < fitted(w, h, rgba).0,
        0 <= y < fitted(w, h, rgba).1,
        0 <= c < 4,
    ensures
        ({
            let (nw, nh, px) = fitted(w, h, rgba);
            let sx = nearest(x, w as int, nw);
            let sy = nearest(y, h as int, nh);
            &&& px[4 * (y * nw + x) + c] == rgba[4 * (sy * w + sx) + c]
            &&& sx * nw <= x * w < (sx + 1) * nw
            &&& sy * nh <= y * h < (sy + 1) * nh
            &&& nw > 1 ==> nw * longest(w, h) <= w * 256 < (nw + 1) * longest(w, h)
            &&& nh > 1 ==> nh * longest(w, h) <= h * 256 < (nh + 1) * longest(w, h)
        }),
{
    law_fitted_image_is_small(w, h, rgba);
    let (nw, nh, px) = fitted(w, h, rgba);
    let l = longest(w, h) as int;
    let p = y * nw + x;
    let i = 4 * p + c;
    assert(0 <= p < nw * nh) by (nonlinear_arith)
        requires
            p == y * nw + x,
            0 <= x < nw,
            0 <= y < nh,
    ;
    assert(i / 4 == p && i % 4 == c);
    assert(p / nw == y && p % nw == x) by {
        vstd::arithmetic::div_mod::lemma_fundamental_div_mod_converse(p, nw, y, x);
    }
    assert(nw * nh * 4 == 4 * (nw * nh)) by (nonlinear_arith);
    assert(0 <= i < nw * nh * 4);
    let sx = nearest(x, w as int, nw);
    let sy = nearest(y, h as int, nh);
    assert((sy * w + sx) * 4 + c == 4 * (sy * w + sx) + c);
    vstd::arithmetic::div_mod::lemma_fundamental_div_mod(x * w, nw);
    vstd::arithmetic::div_mod::lemma_fundamental_div_mod(y * h, nh);
    vstd::arithmetic::div_mod::lemma_fundamental_div_mod(w * 256, l);
    vstd::arithmetic::div_mod::lemma_fundamental_div_mod(h * 256, l);
    let (rx, ry) = ((x * w) % nw, (y * h) % nh);
    let (rw, rh) = ((w * 256) % l, (h * 256) % l);
    let (qw, qh) = (w * 256 / l, h * 256 / l);
    assert(sx * nw <= x * w < (sx + 1) * nw) by (nonlinear_arith)
        requires
            x * w == nw * sx + rx,
            0 <= rx < nw,
    ;
    assert(sy * nh <= y * h < (sy + 1) * nh) by (nonlinear_arith)
        requires
            y * h == nh * sy + ry,
            0 <= ry < nh,
    ;
    assert(qw * l <= w * 256 < (qw + 1) * l) by (nonlinear_arith)
        requires
            w * 256 == l * qw + rw,
            0 <= rw < l,
    ;
    assert(qh * l <= h * 256 < (qh + 1) * l) by (nonlinear_arith)
        requires
            h * 256 == l * qh + rh,
            0 <= rh < l,
    ;
}

} // verus!
