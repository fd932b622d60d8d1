//! Kitty graphics: pixel expansion, the image cache and the placement walk.

use crate::engine::{ImageData, ImagePlacement};
use std::collections::HashMap;
use std::sync::Arc;
use vstd::prelude::*;

verus! {

/// How an image's stored bytes spell its pixels.
#[derive(Clone, Copy, Debug, PartialEq, Eq, Structural)]
pub enum ImageFormat {
    Rgb,
    Rgba,
    Png,
    GrayAlpha,
    Gray,
    /// A format this build does not know.
    Other,
}

/// How an image's stored bytes are compressed.
#[derive(Clone, Copy, Debug, PartialEq, Eq, Structural)]
pub enum Compression {
    Raw,
    ZlibDeflate,
    /// A scheme this build does not know.
    Other,
}

/// Bytes a pixel takes in `fmt`; `None` for a format that cannot be expanded.
pub open spec fn bytes_per_pixel(fmt: ImageFormat) -> Option<nat> {
    match fmt {
        ImageFormat::Rgba => Some(4),
        ImageFormat::Rgb => Some(3),
        ImageFormat::GrayAlpha => Some(2),
        ImageFormat::Gray => Some(1),
        ImageFormat::Png => None,
        ImageFormat::Other => None,
    }
}

/// Channel `ch` (red, green, blue, alpha) of pixel `i` of `src`.
pub open spec fn channel(fmt: ImageFormat, src: Seq<u8>, i: int, ch: int) -> u8 {
    match fmt {
        ImageFormat::Rgba => src[4 * i + ch],
        ImageFormat::Rgb => if ch == 3 {
            255
        } else {
            src[3 * i + ch]
        },
        ImageFormat::GrayAlpha => if ch == 3 {
            src[2 * i + 1]
        } else {
            src[2 * i]
        },
        _ => if ch == 3 {
            255
        } else {
            src[i]
        },
    }
}

/// The first `n` pixels of `src` as straight-alpha RGBA8.
pub open spec fn expanded(fmt: ImageFormat, src: Seq<u8>, n: nat) -> Seq<u8> {
    Seq::new(4 * n, |j: int| channel(fmt, src, j / 4, j % 4))
}

/// The stored bytes of a `w` by `h` image as RGBA8; `None` for bytes that are
/// compressed, of an unknown format or of the wrong length, and for an image
/// whose pixels could not be addressed.
pub open spec fn rgba_of(
    fmt: ImageFormat,
    comp: Compression,
    w: u32,
    h: u32,
    src: Seq<u8>,
) -> Option<Seq<u8>> {
    let n = (w as nat) * (h as nat);
    match bytes_per_pixel(fmt) {
        Some(k) if comp == Compression::Raw && 4 * n <= usize::MAX && src.len() == k * n => Some(
            expanded(fmt, src, n),
        ),
        _ => None,
    }
}

/// Expand stored pixel data to straight-alpha RGBA8.
pub fn to_rgba(fmt: ImageFormat, comp: Compression, w: u32, h: u32, src: &[u8]) -> (out: Option<
    Vec<u8>,
>)
    ensures
        opt_bytes(out) == rgba_of(fmt, comp, w, h, src@),
{
    if comp != Compression::Raw {
        return None;
    }
    assert(w * h <= 0xffff_ffff * 0xffff_ffff) by (nonlinear_arith)
        requires
            w <= 0xffff_ffff,
            h <= 0xffff_ffff,
    ;
    let px: u64 = w as u64 * h as u64;
    let bpp: u64 = match fmt {
        ImageFormat::Rgba => 4,
        ImageFormat::Rgb => 3,
        ImageFormat::GrayAlpha => 2,
        ImageFormat::Gray => 1,
        ImageFormat::Png => {
            return None;
        },
        ImageFormat::Other => {
            return None;
        },
    };
    if px > usize::MAX as u64 / 4 || src.len() as u64 != px * bpp {
        return None;
    }
    let n: usize = px as usize;
    let mut out: Vec<u8> = Vec::with_capacity(n * 4);
    let mut i: usize = 0;
    while i < n
        invariant
            i <= n,
            4 * n <= usize::MAX,
            bytes_per_pixel(fmt) is Some,
            src@.len() == bytes_per_pixel(fmt)->0 * n,
            out@ == expanded(fmt, src@, i as nat),
        decreases n - i,
    {
        let ghost before = out@;
        match fmt {
            ImageFormat::Rgba => {
                out.push(src[4 * i]);
                out.push(src[4 * i + 1]);
                out.push(src[4 * i + 2]);
                out.push(src[4 * i + 3]);
            },
            ImageFormat::Rgb => {
                out.push(src[3 * i]);
                out.push(src[3 * i + 1]);
                out.push(src[3 * i + 2]);
                out.push(0xff);
            },
            ImageFormat::GrayAlpha => {
                let g: u8 = src[2 * i];
                out.push(g);
                out.push(g);
                out.push(g);
                out.push(src[2 * i + 1]);
            },
            _ => {
                let g: u8 = src[i];
                out.push(g);
                out.push(g);
                out.push(g);
                out.push(0xff);
            },
        }
        i += 1;
        assert(out@ =~= expanded(fmt, src@, i as nat));
    }
    Some(out)
}

/// The bytes an optional buffer holds.
pub open spec fn opt_bytes(b: Option<Vec<u8>>) -> Option<Seq<u8>> {
    match b {
        Some(v) => Some(v@),
        None => None,
    }
}

/// An image's pixels, as its holders see them.
#[verifier::ext_equal]
pub ghost struct ImageView {
    pub width: u32,
    pub height: u32,
    pub rgba: Seq<u8>,
}

impl View for ImageData {
    type V = ImageView;

    open spec fn view(&self) -> ImageView {
        ImageView { width: self.width, height: self.height, rgba: self.rgba@ }
    }
}

/// What a cache holds of each image id.
pub open spec fn cached(cache: Map<u32, Arc<ImageData>>) -> Map<u32, ImageView> {
    cache.map_values(|d: Arc<ImageData>| (*d)@)
}

/// Another handle on the same pixels: `Arc::clone`, whose result points to the
/// allocation that its argument points to.
#[verifier::external_body]
fn shared(d: &Arc<ImageData>) -> (r: Arc<ImageData>)
    ensures
        r == *d,
{
    Arc::clone(d)
}

/// Drop cached pixels of ids that no placement showed. `seen` may name an id
/// more than once.
pub fn evict_absent(cache: &mut HashMap<u32, Arc<ImageData>>, seen: &[u32])
    ensures
        final(cache)@ == evicted(old(cache)@, seen@),
{
    broadcast use vstd::std_specs::hash::group_hash_axioms;

    let mut kept: HashMap<u32, Arc<ImageData>> = HashMap::new();
    let mut i: usize = 0;
    while i < seen.len()
        invariant
            i <= seen@.len(),
            forall|k: u32| #[trigger]
                kept@.contains_key(k) <==> old(cache)@.contains_key(k) && seen@.take(
                    i as int,
                ).contains(k),
            forall|k: u32| #[trigger]
                cache@.contains_key(k) <==> old(cache)@.contains_key(k) && !seen@.take(
                    i as int,
                ).contains(k),
            forall|k: u32| kept@.contains_key(k) ==> #[trigger] kept@[k] == old(cache)@[k],
            forall|k: u32| cache@.contains_key(k) ==> #[trigger] cache@[k] == old(cache)@[k],
        decreases seen.len() - i,
    {
        let id: u32 = seen[i];
        let ghost was = seen@.take(i as int);
        let ghost now = seen@.take(i + 1);
        assert(now =~= was.push(id));
        assert forall|k: u32| now.contains(k) <==> was.contains(k) || k == id by {
            if was.contains(k) {
                let j = was.index_of(k);
                assert(now[j] == k);
            }
            if k == id {
                assert(now[i as int] == k);
            }
        }
        if let Some(d) = cache.remove(&id) {
            kept.insert(id, d);
        }
        i += 1;
    }
    assert(seen@.take(seen@.len() as int) =~= seen@);
    assert(kept@ =~= evicted(old(cache)@, seen@));
    *cache = kept;
}

/// What eviction leaves of a cache: the images of the ids seen.
pub open spec fn evicted<V>(cache: Map<u32, V>, seen: Seq<u32>) -> Map<u32, V> {
    cache.restrict(Set::new(|k: u32| seen.contains(k)))
}

/// What the terminal reports of one stored image. A field that could not be
/// read is `None`.
#[derive(Clone, Copy)]
pub struct ImageRead<'a> {
    pub width: Option<u32>,
    pub height: Option<u32>,
    pub format: Option<ImageFormat>,
    pub compression: Option<Compression>,
    pub data: Option<&'a [u8]>,
}

/// Where the terminal says a placement is drawn.
#[derive(Clone, Copy)]
pub struct RenderInfo {
    pub pixel_width: u32,
    pub pixel_height: u32,
    pub grid_cols: u32,
    pub grid_rows: u32,
    pub viewport_col: i32,
    pub viewport_row: i32,
    pub viewport_visible: bool,
    pub source_x: u32,
    pub source_y: u32,
    pub source_width: u32,
    pub source_height: u32,
}

/// What the terminal reports of one placement. A field that could not be read
/// is `None`.
#[derive(Clone, Copy)]
pub struct PlacementRead<'a> {
    pub is_virtual: Option<bool>,
    pub image_id: Option<u32>,
    pub placement_id: Option<u32>,
    pub x_offset: Option<u32>,
    pub y_offset: Option<u32>,
    pub z: Option<i32>,
    pub image: Option<ImageRead<'a>>,
    pub info: Option<RenderInfo>,
}

/// What the terminal reports of its placements.
#[derive(Clone, Copy)]
pub enum Graphics<'a> {
    /// The protocol is off.
    Disabled,
    /// The placements could not be listed.
    Unreadable,
    Listed(&'a [PlacementRead<'a>]),
}

/// The placements could not be listed.
#[derive(Clone, Copy, Debug, PartialEq, Eq, Structural)]
pub struct PlacementsUnreadable;

/// A placement, as its holders see it.
#[verifier::ext_equal]
pub ghost struct PlacementView {
    pub data: ImageView,
    pub image_id: u32,
    pub placement_id: u32,
    pub col: i32,
    pub row: i32,
    pub grid_cols: u32,
    pub grid_rows: u32,
    pub x_offset: u32,
    pub y_offset: u32,
    pub dest_w: u32,
    pub dest_h: u32,
    pub src_x: u32,
    pub src_y: u32,
    pub src_w: u32,
    pub src_h: u32,
    pub z: i32,
    pub visible: bool,
}

impl View for ImagePlacement {
    type V = PlacementView;

    open spec fn view(&self) -> PlacementView {
        PlacementView {
            data: (*self.data)@,
            image_id: self.image_id,
            placement_id: self.placement_id,
            col: self.col,
            row: self.row,
            grid_cols: self.grid_cols,
            grid_rows: self.grid_rows,
            x_offset: self.x_offset,
            y_offset: self.y_offset,
            dest_w: self.dest_w,
            dest_h: self.dest_h,
            src_x: self.src_x,
            src_y: self.src_y,
            src_w: self.src_w,
            src_h: self.src_h,
            z: self.z,
            visible: self.visible,
        }
    }
}

/// What a list of placements shows.
pub open spec fn placements(v: Seq<ImagePlacement>) -> Seq<PlacementView> {
    v.map_values(|p: ImagePlacement| p@)
}

/// `x`, or `d` where it could not be read.
pub open spec fn read_or<T>(x: Option<T>, d: T) -> T {
    match x {
        Some(v) => v,
        None => d,
    }
}

/// Whether cached pixels are those of a `w` by `h` image.
pub open spec fn fits(d: ImageView, w: u32, h: u32) -> bool {
    let bytes = 4 * ((w as nat) * (h as nat));
    &&& d.width == w
    &&& d.height == h
    &&& d.rgba.len() == if bytes > u64::MAX {
        u64::MAX as nat
    } else {
        bytes
    }
}

/// The pixels of image `id`: those cached, or else those stored.
pub open spec fn pixels(
    cache: Map<u32, ImageView>,
    id: u32,
    image: ImageRead<'_>,
) -> Option<ImageView> {
    match (image.width, image.height) {
        (Some(w), Some(h)) => if cache.contains_key(id) && fits(cache[id], w, h) {
            Some(cache[id])
        } else {
            match (image.format, image.compression, image.data) {
                (Some(fmt), Some(comp), Some(bytes)) => match rgba_of(fmt, comp, w, h, bytes@) {
                    Some(rgba) => Some(ImageView { width: w, height: h, rgba }),
                    None => None,
                },
                _ => None,
            }
        },
        _ => None,
    }
}

/// The placement that one read yields: `None` for a virtual one, one of zero
/// size, and one whose image or position cannot be had.
pub open spec fn placed(cache: Map<u32, ImageView>, r: PlacementRead<'_>) -> Option<
    PlacementView,
> {
    match (r.image_id, r.image, r.info) {
        (Some(id), Some(image), Some(info)) => if read_or(r.is_virtual, false) || info.pixel_width
            == 0 || info.pixel_height == 0 {
            None
        } else {
            match pixels(cache, id, image) {
                Some(data) => Some(
                    PlacementView {
                        data,
                        image_id: id,
                        placement_id: read_or(r.placement_id, 0),
                        col: info.viewport_col,
                        row: info.viewport_row,
                        grid_cols: info.grid_cols,
                        grid_rows: info.grid_rows,
                        x_offset: read_or(r.x_offset, 0),
                        y_offset: read_or(r.y_offset, 0),
                        dest_w: info.pixel_width,
                        dest_h: info.pixel_height,
                        src_x: info.source_x,
                        src_y: info.source_y,
                        src_w: info.source_width,
                        src_h: info.source_height,
                        z: read_or(r.z, 0),
                        visible: info.viewport_visible,
                    },
                ),
                None => None,
            }
        },
        _ => None,
    }
}

/// The cache and the placements, in the order read, after a walk over `reads`.
pub open spec fn walked(cache: Map<u32, ImageView>, reads: Seq<PlacementRead<'_>>) -> (
    Map<u32, ImageView>,
    Seq<PlacementView>,
)
    decreases reads.len(),
{
    if reads.len() == 0 {
        (cache, Seq::empty())
    } else {
        let (c, ps) = walked(cache, reads.drop_last());
        match placed(c, reads.last()) {
            Some(p) => (c.insert(p.image_id, p.data), ps.push(p)),
            None => (c, ps),
        }
    }
}

/// The image ids of a list of placements.
pub open spec fn ids(ps: Seq<PlacementView>) -> Seq<u32> {
    ps.map_values(|p: PlacementView| p.image_id)
}

/// Draw order: ascending z, ties by image id.
pub open spec fn drawn_before(a: PlacementView, b: PlacementView) -> bool {
    a.z < b.z || a.z == b.z && a.image_id < b.image_id
}

/// The placements of image `id` at depth `z`, in order.
pub open spec fn level(ps: Seq<PlacementView>, z: i32, id: u32) -> Seq<PlacementView>
    decreases ps.len(),
{
    if ps.len() == 0 {
        Seq::empty()
    } else if ps.last().z == z && ps.last().image_id == id {
        level(ps.drop_last(), z, id).push(ps.last())
    } else {
        level(ps.drop_last(), z, id)
    }
}

/// `out` holds the placements `ps` in draw order, those that tie staying in the
/// order they came.
pub open spec fn draw_order(out: Seq<PlacementView>, ps: Seq<PlacementView>) -> bool {
    &&& out.len() == ps.len()
    &&& forall|i: int, j: int| 0 <= i < j < out.len() ==> !drawn_before(out[j], out[i])
    &&& forall|z: i32, id: u32| #[trigger] level(out, z, id) == level(ps, z, id)
}

proof fn lemma_level_add(a: Seq<PlacementView>, b: Seq<PlacementView>, z: i32, id: u32)
    ensures
        level(a + b, z, id) == level(a, z, id) + level(b, z, id),
    decreases b.len(),
{
    if b.len() == 0 {
        assert(a + b =~= a);
        assert(level(a, z, id) + level(b, z, id) =~= level(a, z, id));
    } else {
        lemma_level_add(a, b.drop_last(), z, id);
        assert((a + b).drop_last() =~= a + b.drop_last());
        assert(level(a + b, z, id) =~= level(a, z, id) + level(b, z, id));
    }
}

/// A stretch without placements of image `id` at depth `z` holds none.
proof fn lemma_level_none(ps: Seq<PlacementView>, z: i32, id: u32)
    requires
        forall|i: int| 0 <= i < ps.len() ==> !(#[trigger] ps[i].z == z && ps[i].image_id == id),
    ensures
        level(ps, z, id) == Seq::<PlacementView>::empty(),
    decreases ps.len(),
{
    if ps.len() > 0 {
        lemma_level_none(ps.drop_last(), z, id);
    }
}

proof fn lemma_insert_keeps_order(
    out: Seq<PlacementView>,
    ps: Seq<PlacementView>,
    p: PlacementView,
    at: int,
)
    requires
        draw_order(out, ps),
        0 <= at <= out.len(),
        forall|i: int| 0 <= i < at ==> !drawn_before(p, #[trigger] out[i]),
        forall|i: int| at <= i < out.len() ==> drawn_before(p, #[trigger] out[i]),
    ensures
        draw_order(out.insert(at, p), ps.push(p)),
{
    let a = out.take(at);
    let b = out.skip(at);
    assert(out =~= a + b);
    assert(out.insert(at, p) =~= (a + seq![p]) + b);
    assert forall|z: i32, id: u32| #[trigger]
        level(out.insert(at, p), z, id) == level(ps.push(p), z, id) by {
        lemma_level_add(a, b, z, id);
        lemma_level_add(a + seq![p], b, z, id);
        lemma_level_add(a, seq![p], z, id);
        lemma_level_add(ps, seq![p], z, id);
        assert(ps.push(p) =~= ps + seq![p]);
        assert(level(out, z, id) == level(ps, z, id));
        if p.z == z && p.image_id == id {
            assert forall|i: int| 0 <= i < b.len() implies !(#[trigger] b[i].z == z
                && b[i].image_id == id) by {
                assert(drawn_before(p, out[at + i]));
            }
            lemma_level_none(b, z, id);
        } else {
            lemma_level_none(seq![p], z, id);
        }
        assert(level(out.insert(at, p), z, id) =~= level(ps.push(p), z, id));
    }
    let o = out.insert(at, p);
    assert forall|i: int, j: int| 0 <= i < j < o.len() implies !drawn_before(o[j], o[i]) by {
        if i < at && j > at {
            assert(!drawn_before(out[j - 1], out[i]));
        } else if i >= at && j > at && i > at {
            assert(!drawn_before(out[j - 1], out[i - 1]));
        } else if j < at {
            assert(!drawn_before(out[j], out[i]));
        } else if i == at {
            assert(drawn_before(p, out[j - 1]));
        }
    }
}

/// Put `p` behind everything that is not drawn after it.
fn place_in_order(out: &mut Vec<ImagePlacement>, p: ImagePlacement, ps: Ghost<Seq<PlacementView>>)
    requires
        draw_order(placements(old(out)@), ps@),
    ensures
        draw_order(placements(final(out)@), ps@.push(p@)),
{
    let n: usize = out.len();
    let mut at: usize = n;
    while at > 0 && (p.z < out[at - 1].z || p.z == out[at - 1].z && p.image_id < out[at
        - 1].image_id)
        invariant
            at <= n,
            n == out@.len(),
            out@ == old(out)@,
            forall|i: int| at <= i < n ==> drawn_before(p@, #[trigger] placements(out@)[i]),
        decreases at,
    {
        assert(drawn_before(p@, placements(out@)[at - 1]));
        at -= 1;
    }
    proof {
        let o = placements(out@);
        assert forall|i: int| 0 <= i < at implies !drawn_before(p@, #[trigger] o[i]) by {
            if i < at - 1 {
                assert(!drawn_before(o[at - 1], o[i]));
            }
        }
        lemma_insert_keeps_order(o, ps@, p@, at as int);
    }
    let ghost shown = p@;
    out.insert(at, p);
    assert(placements(out@) =~= placements(old(out)@).insert(at as int, shown));
}

/// The pixels of image `id`, from the cache where they fit the image and else
/// expanded from what is stored and cached.
fn fetch(cache: &mut HashMap<u32, Arc<ImageData>>, id: u32, image: &ImageRead<'_>) -> (d: Option<
    Arc<ImageData>,
>)
    ensures
        match d {
            Some(x) => pixels(cached(old(cache)@), id, *image) == Some((*x)@) && cached(
                final(cache)@,
            ) == cached(old(cache)@).insert(id, (*x)@),
            None => pixels(cached(old(cache)@), id, *image) is None && final(cache)@ == old(cache)@,
        },
{
    broadcast use vstd::std_specs::hash::group_hash_axioms;

    let (w, h) = match (image.width, image.height) {
        (Some(w), Some(h)) => (w, h),
        _ => {
            return None;
        },
    };
    assert(w * h <= 0xffff_ffff * 0xffff_ffff) by (nonlinear_arith)
        requires
            w <= 0xffff_ffff,
            h <= 0xffff_ffff,
    ;
    let px: u64 = w as u64 * h as u64;
    let expected: u64 = if px > u64::MAX / 4 {
        u64::MAX
    } else {
        px * 4
    };
    if let Some(d) = cache.get(&id) {
        if d.width == w && d.height == h && d.rgba.len() as u64 == expected {
            let r = shared(d);
            assert(cached(cache@).insert(id, (*r)@) =~= cached(cache@));
            return Some(r);
        }
    }
    let (fmt, comp, bytes) = match (image.format, image.compression, image.data) {
        (Some(fmt), Some(comp), Some(bytes)) => (fmt, comp, bytes),
        _ => {
            return None;
        },
    };
    match to_rgba(fmt, comp, w, h, bytes) {
        Some(rgba) => {
            let d = Arc::new(ImageData { width: w, height: h, rgba });
            cache.insert(id, shared(&d));
            assert(cached(cache@) =~= cached(old(cache)@).insert(id, (*d)@));
            Some(d)
        },
        None => None,
    }
}

/// Rebuild `out` from the terminal's placements, copying the pixels of any
/// image that `cache` does not hold, and drop cached pixels that no placement
/// shows. `out` comes back in draw order, `seen` lists the ids met.
pub fn walk_placements(
    graphics: Graphics<'_>,
    cache: &mut HashMap<u32, Arc<ImageData>>,
    seen: &mut Vec<u32>,
    out: &mut Vec<ImagePlacement>,
) -> (r: Result<(), PlacementsUnreadable>)
    ensures
        match graphics {
            Graphics::Disabled => r is Ok && final(cache)@ == Map::<u32, Arc<ImageData>>::empty()
                && final(seen)@.len() == 0 && final(out)@.len() == 0,
            Graphics::Unreadable => r is Err && final(cache)@ == old(cache)@ && final(seen)@.len()
                == 0 && final(out)@.len() == 0,
            Graphics::Listed(reads) => {
                let (c, ps) = walked(cached(old(cache)@), reads@);
                &&& r is Ok
                &&& cached(final(cache)@) == evicted(c, ids(ps))
                &&& final(seen)@ == ids(ps)
                &&& draw_order(placements(final(out)@), ps)
            },
        },
{
    broadcast use vstd::std_specs::hash::group_hash_axioms;

    out.clear();
    seen.clear();
    let reads = match graphics {
        Graphics::Disabled => {
            cache.clear();
            return Ok(());
        },
        Graphics::Unreadable => {
            return Err(PlacementsUnreadable);
        },
        Graphics::Listed(reads) => reads,
    };
    let ghost start = cached(cache@);
    let mut i: usize = 0;
    assert(reads@.take(0) =~= Seq::empty());
    assert(ids(Seq::empty()) =~= Seq::<u32>::empty());
    while i < reads.len()
        invariant
            i <= reads@.len(),
            cached(cache@) == walked(start, reads@.take(i as int)).0,
            seen@ == ids(walked(start, reads@.take(i as int)).1),
            draw_order(placements(out@), walked(start, reads@.take(i as int)).1),
        decreases reads@.len() - i,
    {
        let r = &reads[i];
        let ghost ps = walked(start, reads@.take(i as int)).1;
        assert(reads@.take(i + 1).drop_last() =~= reads@.take(i as int));
        i += 1;
        let is_virtual = match r.is_virtual {
            Some(v) => v,
            None => false,
        };
        if is_virtual {
            continue;
        }
        let (id, image, info) = match (r.image_id, r.image, r.info) {
            (Some(id), Some(image), Some(info)) => (id, image, info),
            _ => {
                continue;
            },
        };
        if info.pixel_width == 0 || info.pixel_height == 0 {
            continue;
        }
        let data = match fetch(cache, id, &image) {
            Some(d) => d,
            None => {
                continue;
            },
        };
        seen.push(id);
        let p = ImagePlacement {
            image_id: id,
            placement_id: u32_or_zero(r.placement_id),
            data,
            col: info.viewport_col,
            row: info.viewport_row,
            grid_cols: info.grid_cols,
            grid_rows: info.grid_rows,
            x_offset: u32_or_zero(r.x_offset),
            y_offset: u32_or_zero(r.y_offset),
            dest_w: info.pixel_width,
            dest_h: info.pixel_height,
            src_x: info.source_x,
            src_y: info.source_y,
            src_w: info.source_width,
            src_h: info.source_height,
            z: match r.z {
                Some(z) => z,
                None => 0,
            },
            visible: info.viewport_visible,
        };
        assert(ids(ps.push(p@)) =~= ids(ps).push(id));
        place_in_order(out, p, Ghost(ps));
    }
    assert(reads@.take(reads@.len() as int) =~= reads@);
    let ghost c = cache@;
    evict_absent(cache, seen.as_slice());
    proof {
        lemma_cached_evicted(c, seen@);
    }
    Ok(())
}

/// `x`, or zero where it could not be read.
fn u32_or_zero(x: Option<u32>) -> (r: u32)
    ensures
        r == read_or(x, 0),
{
    match x {
        Some(v) => v,
        None => 0,
    }
}

proof fn lemma_cached_evicted(cache: Map<u32, Arc<ImageData>>, seen: Seq<u32>)
    ensures
        cached(evicted(cache, seen)) == evicted(cached(cache), seen),
{
    assert(cached(cache).dom() =~= cache.dom());
    assert(cached(evicted(cache, seen)) =~= evicted(cached(cache), seen));
}

/// An image whose pixels are all there.
pub open spec fn whole(d: ImageView) -> bool {
    d.rgba.len() == 4 * ((d.width as nat) * (d.height as nat))
}

/// Whether the pixels of an image fit in memory.
pub open spec fn in_memory(d: ImageView) -> bool {
    d.rgba.len() < u64::MAX
}

/// The cached images that a walk can come upon: those that fit in memory, and
/// those that are whole.
spec fn sane(cache: Map<u32, ImageView>) -> bool {
    forall|k: u32| cache.contains_key(k) ==> in_memory(#[trigger] cache[k]) || whole(cache[k])
}

proof fn lemma_placed_is_whole(cache: Map<u32, ImageView>, r: PlacementRead<'_>)
    requires
        sane(cache),
        placed(cache, r) is Some,
    ensures
        whole((placed(cache, r)->0).data),
{
    let id = (placed(cache, r)->0).image_id;
    if cache.contains_key(id) {
        assert(in_memory(cache[id]) || whole(cache[id]));
    }
}

/// Every image that a walk shows is whole, and it is in the cache after it.
proof fn lemma_walk_is_whole(cache: Map<u32, ImageView>, reads: Seq<PlacementRead<'_>>)
    requires
        sane(cache),
    ensures
        sane(walked(cache, reads).0),
        forall|i: int| 0 <= i < walked(cache, reads).1.len() ==> {
            let p = #[trigger] walked(cache, reads).1[i];
            &&& whole(p.data)
            &&& p.dest_w > 0
            &&& p.dest_h > 0
            &&& walked(cache, reads).0.contains_key(p.image_id)
            &&& whole(walked(cache, reads).0[p.image_id])
        },
    decreases reads.len(),
{
    if reads.len() > 0 {
        lemma_walk_is_whole(cache, reads.drop_last());
        let (c, ps) = walked(cache, reads.drop_last());
        match placed(c, reads.last()) {
            Some(p) => {
                lemma_placed_is_whole(c, reads.last());
                let after = c.insert(p.image_id, p.data);
                assert(walked(cache, reads) == (after, ps.push(p)));
                assert forall|k: u32| after.contains_key(k) implies in_memory(
                    #[trigger] after[k],
                ) || whole(after[k]) by {
                    if k != p.image_id {
                        assert(in_memory(c[k]) || whole(c[k]));
                    }
                }
                assert forall|i: int| 0 <= i < ps.push(p).len() implies ({
                    let q = #[trigger] ps.push(p)[i];
                    &&& whole(q.data)
                    &&& q.dest_w > 0
                    &&& q.dest_h > 0
                    &&& after.contains_key(q.image_id)
                    &&& whole(after[q.image_id])
                }) by {
                    if i < ps.len() {
                        assert(ps.push(p)[i] == ps[i]);
                    }
                }
            },
            None => {
                assert(walked(cache, reads) == (c, ps));
            },
        }
    }
}

/// What is at depth `z` of image `id` was there in the list.
proof fn lemma_level_holds(ps: Seq<PlacementView>, z: i32, id: u32, k: int)
    requires
        0 <= k < level(ps, z, id).len(),
    ensures
        ps.contains(level(ps, z, id)[k]),
    decreases ps.len(),
{
    let shorter = level(ps.drop_last(), z, id);
    if k < shorter.len() {
        lemma_level_holds(ps.drop_last(), z, id, k);
        let p = shorter[k];
        let i = choose|i: int| 0 <= i < ps.drop_last().len() && ps.drop_last()[i] == p;
        assert(ps[i] == p);
    } else {
        assert(ps[ps.len() - 1] == level(ps, z, id)[k]);
    }
}

/// A placement of the list is at its own depth.
proof fn lemma_level_has(ps: Seq<PlacementView>, i: int) -> (k: int)
    requires
        0 <= i < ps.len(),
    ensures
        0 <= k < level(ps, ps[i].z, ps[i].image_id).len(),
        level(ps, ps[i].z, ps[i].image_id)[k] == ps[i],
    decreases ps.len(),
{
    let (z, id) = (ps[i].z, ps[i].image_id);
    let shorter = level(ps.drop_last(), z, id);
    if i == ps.len() - 1 {
        shorter.len() as int
    } else {
        lemma_level_has(ps.drop_last(), i)
    }
}

/// Every placement drawn was read.
proof fn lemma_drawn_was_read(out: Seq<PlacementView>, ps: Seq<PlacementView>, i: int)
    requires
        draw_order(out, ps),
        0 <= i < out.len(),
    ensures
        ps.contains(out[i]),
{
    let (z, id) = (out[i].z, out[i].image_id);
    let k = lemma_level_has(out, i);
    assert(level(out, z, id) == level(ps, z, id));
    lemma_level_holds(ps, z, id, k);
}

/// What is drawn after a walk comes by ascending depth and, at one depth, by
/// image id. Each placement has a size to be drawn at and carries all of its
/// image's pixels, and so does every image left in the cache. All it takes is
/// that the images cached before fit in memory.
pub proof fn law_walk_draws_whole_images_in_order(
    cache: Map<u32, ImageView>,
    reads: Seq<PlacementRead<'_>>,
    out: Seq<PlacementView>,
)
    requires
        forall|k: u32| cache.contains_key(k) ==> in_memory(#[trigger] cache[k]),
        draw_order(out, walked(cache, reads).1),
    ensures
        forall|i: int, j: int|
            0 <= i < j < out.len() ==> (#[trigger] out[i]).z < (#[trigger] out[j]).z || out[i].z
                == out[j].z && out[i].image_id <= out[j].image_id,
        forall|i: int|
            0 <= i < out.len() ==> (#[trigger] out[i]).dest_w > 0 && out[i].dest_h > 0 && whole(
                out[i].data,
            ),
        forall|k: u32|
            evicted(walked(cache, reads).0, ids(walked(cache, reads).1)).contains_key(k) ==> whole(
                #[trigger] evicted(walked(cache, reads).0, ids(walked(cache, reads).1))[k],
            ),
{
    let (c, ps) = walked(cache, reads);
    lemma_walk_is_whole(cache, reads);
    assert forall|i: int, j: int| 0 <= i < j < out.len() implies (#[trigger] out[i]).z < (
    #[trigger] out[j]).z || out[i].z == out[j].z && out[i].image_id <= out[j].image_id by {
        assert(!drawn_before(out[j], out[i]));
    }
    assert forall|i: int| 0 <= i < out.len() implies (#[trigger] out[i]).dest_w > 0 && out[i].dest_h
        > 0 && whole(out[i].data) by {
        lemma_drawn_was_read(out, ps, i);
        let n = choose|n: int| 0 <= n < ps.len() && ps[n] == out[i];
        assert(whole(ps[n].data));
    }
    assert forall|k: u32| evicted(c, ids(ps)).contains_key(k) implies whole(
        #[trigger] evicted(c, ids(ps))[k],
    ) by {
        let n = choose|n: int| 0 <= n < ids(ps).len() && ids(ps)[n] == k;
        assert(ps[n].image_id == k);
    }
}

/// A placement is shown from its own image: the size its pixels have is the
/// size the terminal reports of the image.
pub proof fn law_placement_shows_its_image(cache: Map<u32, ImageView>, r: PlacementRead<'_>)
    requires
        placed(cache, r) is Some,
    ensures
        r.image is Some,
        (r.image->0).width == Some((placed(cache, r)->0).data.width),
        (r.image->0).height == Some((placed(cache, r)->0).data.height),
        (placed(cache, r)->0).dest_w > 0,
        (placed(cache, r)->0).dest_h > 0,
{
}

/// Eviction leaves the images that are shown and no others, each as it was.
pub proof fn law_eviction_leaves_what_is_shown<V>(cache: Map<u32, V>, seen: Seq<u32>, id: u32)
    ensures
        evicted(cache, seen).contains_key(id) == (cache.contains_key(id) && seen.contains(id)),
        evicted(cache, seen).contains_key(id) ==> evicted(cache, seen)[id] == cache[id],
{
}

/// A walk over the same placements a second time copies no pixels: the cache it
/// leaves, before eviction, is the cache it found.
pub proof fn law_second_look_is_cached(cache: Map<u32, ImageView>, r: PlacementRead<'_>)
    requires
        placed(cache, r) is Some,
    ensures
        ({
            let p = placed(cache, r)->0;
            let c = cache.insert(p.image_id, p.data);
            &&& placed(c, r) == placed(cache, r)
            &&& c.insert(p.image_id, p.data) == c
        }),
{
    let p = placed(cache, r)->0;
    let c = cache.insert(p.image_id, p.data);
    assert(c.insert(p.image_id, p.data) =~= c);
}

/// Whether `p` is drawn where `r` says: from the part of the image that `r` crops,
/// at its place, to its size and at its depth. A number that could not be read
/// counts as zero.
pub open spec fn drawn_as_read(p: PlacementView, r: PlacementRead<'_>) -> bool {
    &&& r.image_id == Some(p.image_id)
    &&& r.info matches Some(info) && {
        &&& p.src_x == info.source_x && p.src_y == info.source_y
        &&& p.src_w == info.source_width && p.src_h == info.source_height
        &&& p.col == info.viewport_col && p.row == info.viewport_row
        &&& p.grid_cols == info.grid_cols && p.grid_rows == info.grid_rows
        &&& p.dest_w == info.pixel_width && p.dest_h == info.pixel_height
        &&& p.visible == info.viewport_visible
    }
    &&& p.placement_id == (if r.placement_id is Some {
        r.placement_id->0
    } else {
        0
    })
    &&& p.x_offset == (if r.x_offset is Some {
        r.x_offset->0
    } else {
        0
    })
    &&& p.y_offset == (if r.y_offset is Some {
        r.y_offset->0
    } else {
        0
    })
    &&& p.z == (if r.z is Some {
        r.z->0
    } else {
        0
    })
}

/// Whether a placement can be shown: it is not virtual, has a size, and its image
/// is stored as raw pixels of the length that its size and format ask for.
pub open spec fn showable(r: PlacementRead<'_>) -> bool {
    &&& r.is_virtual != Some(true)
    &&& r.image_id is Some
    &&& r.info matches Some(info) && info.pixel_width > 0 && info.pixel_height > 0
    &&& r.image matches Some(image) && {
        &&& image.width is Some && image.height is Some && image.data is Some
        &&& image.compression == Some(Compression::Raw)
        &&& image.format matches Some(fmt) && fmt != ImageFormat::Png && fmt != ImageFormat::Other
            && {
            let n = (image.width->0 as int) * (image.height->0 as int);
            let k: int = match fmt {
                ImageFormat::Rgba => 4,
                ImageFormat::Rgb => 3,
                ImageFormat::GrayAlpha => 2,
                _ => 1,
            };
            4 * n <= usize::MAX && (image.data->0)@.len() == n * k
        }
    }
}

/// A placement that is shown is drawn as it was read.
pub proof fn law_placement_is_drawn_as_read(cache: Map<u32, ImageView>, r: PlacementRead<'_>)
    requires
        placed(cache, r) is Some,
    ensures
        drawn_as_read(placed(cache, r)->0, r),
        r.is_virtual != Some(true),
{
}

/// A placement that can be shown is shown, whatever is cached.
pub proof fn law_showable_placement_is_shown(cache: Map<u32, ImageView>, r: PlacementRead<'_>)
    requires
        showable(r),
    ensures
        placed(cache, r) is Some,
{
    let image = r.image->0;
    let n = (image.width->0 as nat) * (image.height->0 as nat);
    assert((image.width->0 as int) * (image.height->0 as int) == n);
    let k = bytes_per_pixel(image.format->0)->0;
    assert(k * n == n * k) by (nonlinear_arith);
}

/// A virtual placement, one of no size, and one whose image or position is not
/// known are not shown.
pub proof fn law_other_placements_are_not_shown(cache: Map<u32, ImageView>, r: PlacementRead<'_>)
    requires
        r.is_virtual == Some(true) || r.image_id is None || r.image is None || r.info is None || (
        r.info matches Some(info) && (info.pixel_width == 0 || info.pixel_height == 0)),
    ensures
        placed(cache, r) is None,
{
}

/// A walk lists every placement that can be shown, as it was read.
pub proof fn law_walk_lists_what_can_be_shown(
    cache: Map<u32, ImageView>,
    reads: Seq<PlacementRead<'_>>,
    i: int,
) -> (k: int)
    requires
        0 <= i < reads.len(),
        showable(reads[i]),
    ensures
        0 <= k < walked(cache, reads).1.len(),
        drawn_as_read(walked(cache, reads).1[k], reads[i]),
    decreases reads.len(),
{
    let (c, ps) = walked(cache, reads.drop_last());
    if i == reads.len() - 1 {
        law_showable_placement_is_shown(c, reads[i]);
        law_placement_is_drawn_as_read(c, reads[i]);
        assert(reads.last() == reads[i]);
        ps.len() as int
    } else {
        let k = law_walk_lists_what_can_be_shown(cache, reads.drop_last(), i);
        assert(reads.drop_last()[i] == reads[i]);
        assert(walked(cache, reads).1[k] == ps[k]);
        k
    }
}

/// A walk lists nothing else: each placement listed is one that was read.
pub proof fn law_walk_lists_only_what_was_read(
    cache: Map<u32, ImageView>,
    reads: Seq<PlacementRead<'_>>,
    k: int,
) -> (i: int)
    requires
        0 <= k < walked(cache, reads).1.len(),
    ensures
        0 <= i < reads.len(),
        drawn_as_read(walked(cache, reads).1[k], reads[i]),
        walked(cache, reads).1.len() <= reads.len(),
    decreases reads.len(),
{
    let (c, ps) = walked(cache, reads.drop_last());
    lemma_walk_len(cache, reads);
    if k < ps.len() {
        let i = law_walk_lists_only_what_was_read(cache, reads.drop_last(), k);
        assert(reads.drop_last()[i] == reads[i]);
        i
    } else {
        law_placement_is_drawn_as_read(c, reads.last());
        reads.len() - 1
    }
}

proof fn lemma_walk_len(cache: Map<u32, ImageView>, reads: Seq<PlacementRead<'_>>)
    ensures
        walked(cache, reads).1.len() <= reads.len(),
    decreases reads.len(),
{
    if reads.len() > 0 {
        lemma_walk_len(cache, reads.drop_last());
    }
}

/// Raw pixels in each format: RGBA stays as it is, RGB is opaque, grey shows the
/// same in each colour, and grey with alpha keeps its alpha. Pixel by pixel.
pub proof fn law_pixels_keep_their_colors(fmt: ImageFormat, w: u32, h: u32, src: Seq<u8>, i: int)
    requires
        rgba_of(fmt, Compression::Raw, w, h, src) is Some,
        0 <= i < (w as int) * (h as int),
    ensures
        ({
            let out = rgba_of(fmt, Compression::Raw, w, h, src)->0;
            let (r, g, b, a) = (out[4 * i], out[4 * i + 1], out[4 * i + 2], out[4 * i + 3]);
            &&& out.len() == 4 * ((w as int) * (h as int))
            &&& fmt == ImageFormat::Rgba
                ==> r == src[4 * i] && g == src[4 * i + 1] && b == src[4 * i
                + 2] && a == src[4 * i + 3]
            &&& fmt == ImageFormat::Rgb ==> r == src[3 * i] && g == src[3 * i + 1] && b == src[3 * i
                + 2] && a == 255
            &&& fmt == ImageFormat::GrayAlpha ==> r == src[2 * i] && g == src[2 * i] && b == src[2
                * i] && a == src[2 * i + 1]
            &&& fmt == ImageFormat::Gray ==> r == src[i] && g == src[i] && b == src[i] && a == 255
        }),
{
    let n = (w as nat) * (h as nat);
    assert((w as int) * (h as int) == n);
    assert((4 * i) / 4 == i && (4 * i) % 4 == 0);
    assert((4 * i + 1) / 4 == i && (4 * i + 1) % 4 == 1);
    assert((4 * i + 2) / 4 == i && (4 * i + 2) % 4 == 2);
    assert((4 * i + 3) / 4 == i && (4 * i + 3) % 4 == 3);
}

/// Compressed bytes, a format without raw pixels and bytes of the wrong length
/// are no pixels.
pub proof fn law_bad_bytes_are_no_pixels(
    fmt: ImageFormat,
    comp: Compression,
    w: u32,
    h: u32,
    src: Seq<u8>,
)
    requires
        ({
            let n = (w as int) * (h as int);
            ||| comp != Compression::Raw
            ||| fmt == ImageFormat::Png
            ||| fmt == ImageFormat::Other
            ||| fmt == ImageFormat::Rgba && src.len() != 4 * n
            ||| fmt == ImageFormat::Rgb && src.len() != 3 * n
            ||| fmt == ImageFormat::GrayAlpha && src.len() != 2 * n
            ||| fmt == ImageFormat::Gray && src.len() != n
        }),
    ensures
        rgba_of(fmt, comp, w, h, src) is None,
{
    let n = (w as nat) * (h as nat);
    assert((w as int) * (h as int) == n);
    if let Some(k) = bytes_per_pixel(fmt) {
        assert(k == 1 ==> k * n == n) by (nonlinear_arith);
        assert(k == 2 ==> k * n == 2 * n) by (nonlinear_arith);
        assert(k == 3 ==> k * n == 3 * n) by (nonlinear_arith);
        assert(k == 4 ==> k * n == 4 * n) by (nonlinear_arith);
    }
}

/// What is said of an image data is said of its own fields, each of the field of its name.
pub proof fn law_image_data_shows_its_fields(x: ImageData)
    ensures
        x@.width == x.width,
        x@.height == x.height,
        x@.rgba == x.rgba@,
{
}

/// What is said of an image placement is said of its own fields, each of the field of its name.
pub proof fn law_image_placement_shows_its_fields(x: ImagePlacement)
    ensures
        x@.data == (*x.data)@,
        x@.image_id == x.image_id,
        x@.placement_id == x.placement_id,
        x@.col == x.col,
        x@.row == x.row,
        x@.grid_cols == x.grid_cols,
        x@.grid_rows == x.grid_rows,
        x@.x_offset == x.x_offset,
        x@.y_offset == x.y_offset,
        x@.dest_w == x.dest_w,
        x@.dest_h == x.dest_h,
        x@.src_x == x.src_x,
        x@.src_y == x.src_y,
        x@.src_w == x.src_w,
        x@.src_h == x.src_h,
        x@.z == x.z,
        x@.visible == x.visible,
{
}

} // verus!
