//! PNG images, decoded to straight-alpha RGBA8.

use crate::engine::images::ImageView;
use crate::engine::ImageData;
use vstd::prelude::*;

verus! {

/// Decoded images beyond this size are refused.
pub const MAX_DECODED_BYTES: usize = 400 * 1024 * 1024;

/// The colour type of pixels that are red, green, blue and alpha.
pub const RGBA: u8 = 6;

/// One decoded frame.
pub struct PngFrame {
    pub width: u32,
    pub height: u32,
    /// Colour type and bits per sample, as the file format numbers them.
    pub color_type: u8,
    pub bit_depth: u8,
    /// The bytes of `buf` that the frame takes.
    pub buffer_size: usize,
    pub buf: Vec<u8>,
}

impl View for PngFrame {
    type V = (u32, u32, u8, u8, nat, Seq<u8>);

    open spec fn view(&self) -> (u32, u32, u8, u8, nat, Seq<u8>) {
        (
            self.width,
            self.height,
            self.color_type,
            self.bit_depth,
            self.buffer_size as nat,
            self.buf@,
        )
    }
}

/// The buffer that the `png` crate asks for to decode `data` to RGBA with eight
/// bits a sample, on a machine whose largest `usize` is `max`; `None` for data it
/// cannot read, or that do not fit the address space there.
pub uninterp spec fn png_buffer_size(data: Seq<u8>, max: nat) -> Option<nat>;

/// The first frame that the `png` crate decodes from `data` to RGBA with eight
/// bits a sample, into a zeroed buffer of `size` bytes: width, height, colour
/// type, bit depth, bytes taken and the buffer.
pub uninterp spec fn png_frame(data: Seq<u8>, size: nat) -> Option<
    (u32, u32, u8, u8, nat, Seq<u8>),
>;

/// `Reader::output_buffer_size` of the `png` crate, on data read with an alpha
/// channel added and 16-bit samples cut to eight. The size it gives fits an
/// allocation.
#[verifier::external_body]
pub(crate) fn output_buffer_size(data: &[u8]) -> (r: Option<usize>)
    ensures
        match r {
            Some(n) => png_buffer_size(data@, usize::MAX as nat) == Some(n as nat) && n <= isize::MAX,
            None => png_buffer_size(data@, usize::MAX as nat) is None,
        },
{
    let mut decoder = png::Decoder::new(std::io::Cursor::new(data));
    decoder.set_transformations(png::Transformations::ALPHA | png::Transformations::STRIP_16);
    decoder.read_info().ok()?.output_buffer_size()
}

/// `Reader::next_frame` of the `png` crate, on data read with an alpha channel
/// added and 16-bit samples cut to eight, into a zeroed buffer of `size` bytes.
#[verifier::external_body]
pub(crate) fn next_frame(data: &[u8], size: usize) -> (r: Option<PngFrame>)
    requires
        size <= isize::MAX,
    ensures
        match r {
            Some(f) => png_frame(data@, size as nat) == Some(f@) && f.buf@.len() == size,
            None => png_frame(data@, size as nat) is None,
        },
{
    let mut decoder = png::Decoder::new(std::io::Cursor::new(data));
    decoder.set_transformations(png::Transformations::ALPHA | png::Transformations::STRIP_16);
    let mut reader = decoder.read_info().ok()?;
    let mut buf = vec![0u8; size];
    let info = reader.next_frame(&mut buf).ok()?;
    Some(PngFrame {
        width: info.width,
        height: info.height,
        color_type: info.color_type as u8,
        bit_depth: info.bit_depth as u8,
        buffer_size: info.buffer_size(),
        buf,
    })
}

/// The bytes of a `w` by `h` image.
pub open spec fn image_bytes(w: u32, h: u32) -> nat {
    (w as nat) * (h as nat) * 4
}

/// Whether a frame is 8-bit RGBA and its buffer holds it whole.
pub open spec fn is_rgba8(f: (u32, u32, u8, u8, nat, Seq<u8>)) -> bool {
    &&& f.2 == RGBA
    &&& f.3 == 8
    &&& image_bytes(f.0, f.1) <= f.5.len()
}

/// The image a frame is, where it is 8-bit RGBA and fills the buffer as such.
pub open spec fn accepted(f: (u32, u32, u8, u8, nat, Seq<u8>)) -> Option<ImageView> {
    if is_rgba8(f) && f.4 == image_bytes(f.0, f.1) {
        Some(
            ImageView {
                width: f.0,
                height: f.1,
                rgba: f.5.take(image_bytes(f.0, f.1) as int),
            },
        )
    } else {
        None
    }
}

/// The image that `data` decodes to; `None` for data that cannot be decoded,
/// that decodes to too much, or that decodes to something else than 8-bit RGBA.
pub open spec fn decoded(data: Seq<u8>) -> Option<ImageView> {
    match png_buffer_size(data, usize::MAX as nat) {
        Some(n) if n <= MAX_DECODED_BYTES => match png_frame(data, n) {
            Some(f) => accepted(f),
            None => None,
        },
        _ => None,
    }
}

/// What an optional image shows.
pub open spec fn opt_image(d: Option<ImageData>) -> Option<ImageView> {
    match d {
        Some(x) => Some(x@),
        None => None,
    }
}

/// The number of bytes of a `w` by `h` image, where it can be addressed.
pub fn rgba_len(w: u32, h: u32) -> (r: Option<usize>)
    ensures
        match r {
            Some(n) => n == image_bytes(w, h),
            None => image_bytes(w, h) > usize::MAX,
        },
{
    match (w as usize).checked_mul(h as usize) {
        Some(n) => {
            assert(w as usize * h as usize == (w as nat) * (h as nat));
            n.checked_mul(4)
        },
        None => None,
    }
}

/// Accept a decoded frame, where it is 8-bit RGBA and fills the buffer as such.
pub fn accept_frame(f: PngFrame) -> (d: Option<ImageData>)
    ensures
        opt_image(d) == accepted(f@),
{
    if f.color_type != RGBA || f.bit_depth != 8 {
        return None;
    }
    match rgba_len(f.width, f.height) {
        Some(len) => {
            if f.buffer_size != len || f.buf.len() < len {
                return None;
            }
            let mut rgba = f.buf;
            rgba.truncate(len);
            Some(ImageData { width: f.width, height: f.height, rgba })
        },
        None => None,
    }
}

/// Decode a PNG image that a program sent.
pub fn decode_png(data: &[u8]) -> (d: Option<ImageData>)
    ensures
        opt_image(d) == decoded(data@),
{
    match output_buffer_size(data) {
        Some(n) => {
            if n > MAX_DECODED_BYTES {
                return None;
            }
            match next_frame(data, n) {
                Some(f) => accept_frame(f),
                None => None,
            }
        },
        None => None,
    }
}

/// An image that was decoded holds all of its pixels.
pub proof fn law_decoded_image_is_whole(data: Seq<u8>)
    requires
        decoded(data) is Some,
    ensures
        (decoded(data)->0).rgba.len() == image_bytes(
            (decoded(data)->0).width,
            (decoded(data)->0).height,
        ),
{
}

/// A frame is taken exactly where it is red, green, blue and alpha of eight bits
/// each and fills its buffer as such; it has its width and its height, and the
/// bytes that are its pixels, from the first on.
pub proof fn law_frame_is_taken_as_it_is(f: (u32, u32, u8, u8, nat, Seq<u8>), i: int)
    ensures
        ({
            let n = 4 * (f.0 as nat * f.1 as nat);
            &&& accepted(f) is Some <==> f.2 == 6 && f.3 == 8 && n <= f.5.len() && f.4 == n
            &&& accepted(f) is Some ==> {
                &&& accepted(f)->0.width == f.0
                &&& accepted(f)->0.height == f.1
                &&& accepted(f)->0.rgba.len() == n
                &&& 0 <= i < n ==> accepted(f)->0.rgba[i] == f.5[i]
            }
        }),
{
    let (w, h) = (f.0 as nat, f.1 as nat);
    assert(w * h * 4 == 4 * (w * h)) by (nonlinear_arith);
}

/// An image that needs more than four hundred mebibytes is not decoded, and one
/// that needs no more is decoded from its frame.
pub proof fn law_only_huge_images_are_refused(data: Seq<u8>, n: nat)
    requires
        png_buffer_size(data, usize::MAX as nat) == Some(n),
    ensures
        n > 419_430_400 ==> decoded(data) is None,
        n <= 419_430_400 && png_frame(data, n) is Some ==> decoded(data) == accepted(
            png_frame(data, n)->0,
        ),
        png_frame(data, n) is None ==> decoded(data) is None,
{
}

} // verus!
