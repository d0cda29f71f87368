//! Box-like stack blur and resampling of raw pixel buffers, done by the
//! `libblur` and `image` crates.
use vstd::prelude::*;
use crate::decode::{decode_image, decoding, extension_chars};

verus! {

/// Channel layout of a pixel buffer handed to the blur.
#[derive(Debug, Clone, Copy, PartialEq, Eq, Structural)]
pub enum BlurChannels {
    /// One byte per pixel (a coverage plane).
    Plane,
    /// Four bytes per pixel (RGBA).
    Rgba,
}

/// Bytes per pixel of a channel layout.
pub open spec fn channel_count(c: BlurChannels) -> nat {
    match c {
        BlurChannels::Plane => 1,
        BlurChannels::Rgba => 4,
    }
}

/// Blurs `data`, a `width x height` image of the given channel layout, in
/// place with `libblur::stack_blur` (radius clamped by the library to
/// `1..=1449`). Returns whether the library accepted the layout.
///
/// Claimed of the library: the buffer keeps its length; a rejected layout
/// leaves it untouched; a non-empty image whose buffer holds all its bytes
/// is accepted. The blurred bytes themselves are not described: the
/// library picks a SIMD or scalar path per machine.
#[verifier::external_body]
pub(crate) fn stack_blur_in_place(
    data: &mut Vec<u8>,
    width: u32,
    height: u32,
    channels: BlurChannels,
    radius: u32,
) -> (ok: bool)
    requires
        width * channel_count(channels) <= u32::MAX,
        width * height <= u32::MAX,
    ensures
        final(data)@.len() == old(data)@.len(),
        !ok ==> final(data)@ == old(data)@,
        (width > 0 && height > 0 && old(data)@.len() >= width * height * channel_count(channels))
            ==> ok,
{
    let layout = match channels {
        BlurChannels::Plane => libblur::FastBlurChannels::Plane,
        BlurChannels::Rgba => libblur::FastBlurChannels::Channels4,
    };
    let mut image = libblur::BlurImageMut::borrow(data.as_mut_slice(), width, height, layout);
    libblur::stack_blur(
        &mut image,
        libblur::AnisotropicRadius::new(radius),
        libblur::ThreadingPolicy::Adaptive,
    ).is_ok()
}


/// The RGBA pixels `image::imageops::resize` makes, with the triangle
/// filter, of a `width x height` RGBA image resized to
/// `new_width x new_height`.
pub uninterp spec fn resized_rgba(pixels: Seq<u8>, width: u32, height: u32, new_width: u32, new_height: u32) -> Seq<u8>;

/// Resamples a `width x height` RGBA image to `new_width x new_height`
/// with `image::imageops::resize` and the triangle filter.
///
/// Claimed of the library: the result is determined by the arguments
/// (named [`resized_rgba`]) and holds `new_width * new_height` RGBA pixels.
#[verifier::external_body]
fn resize_rgba(pixels: &Vec<u8>, width: u32, height: u32, new_width: u32, new_height: u32) -> (r: Vec<u8>)
    requires
        pixels@.len() >= width * height * 4,
        new_width * new_height * 4 <= usize::MAX,
    ensures
        r@ == resized_rgba(pixels@, width, height, new_width, new_height),
        r@.len() == new_width * new_height * 4,
{
    let image = image::RgbaImage::from_raw(width, height, pixels.clone()).unwrap();
    image::imageops::resize(&image, new_width, new_height, image::imageops::FilterType::Triangle).into_raw()
}

/// `v / 4`, but at least 1.
pub open spec fn quarter_size(v: u32) -> u32 {
    if v / 4 >= 1 {
        (v / 4) as u32
    } else {
        1
    }
}

/// Shrink an RGBA image to a quarter of its size on each axis (at least one
/// pixel) with the triangle filter. `None` when `pixels` is too short for a
/// `width x height` image.
pub fn shrink_rgba(pixels: &Vec<u8>, width: u32, height: u32) -> (r: Option<(u32, u32, Vec<u8>)>)
    requires
        quarter_size(width) * quarter_size(height) * 4 <= usize::MAX,
    ensures
        r is Some <==> pixels@.len() >= width * height * 4,
        r matches Some((w, h, out)) ==> {
            &&& w == quarter_size(width)
            &&& h == quarter_size(height)
            &&& out@ == resized_rgba(pixels@, width, height, w, h)
            &&& out@.len() == w * h * 4
        },
{
    proof {
        let (a, b) = (width as int, height as int);
        assert(a * b <= 0xffff_ffff_ffff_ffff) by (nonlinear_arith)
            requires
                0 <= a <= 0xffff_ffff,
                0 <= b <= 0xffff_ffff,
        ;
    }
    let wh = width as u64 * height as u64;
    if ((pixels.len() / 4) as u64) < wh {
        return None;
    }
    let sw = if width / 4 >= 1 { width / 4 } else { 1 };
    let sh = if height / 4 >= 1 { height / 4 } else { 1 };
    Some((sw, sh, resize_rgba(pixels, width, height, sw, sh)))
}

/// Blur an RGBA image cheaply: shrink it with [`shrink_rgba`], then
/// stack-blur the small copy with `radius`. `None` when `pixels` is too
/// short for a `width x height` image.
///
/// Returns the small image's width, height and pixels. The blurred bytes
/// come from the blur library and are not described beyond their number.
pub fn blur_rgba(pixels: &Vec<u8>, width: u32, height: u32, radius: u32) -> (r: Option<(u32, u32, Vec<u8>)>)
    requires
        quarter_size(width) * quarter_size(height) <= u32::MAX,
        quarter_size(width) * quarter_size(height) * 4 <= usize::MAX,
    ensures
        r is Some <==> pixels@.len() >= width * height * 4,
        r matches Some((w, h, out)) ==> {
            &&& w == quarter_size(width)
            &&& h == quarter_size(height)
            &&& out@.len() == w * h * 4
        },
{
    let (sw, sh, mut small) = match shrink_rgba(pixels, width, height) {
        Some(t) => t,
        None => return None,
    };
    assert(sw * channel_count(BlurChannels::Rgba) <= u32::MAX);
    let ok = stack_blur_in_place(&mut small, sw, sh, BlurChannels::Rgba, radius);
    if ok {
        Some((sw, sh, small))
    } else {
        None
    }
}

/// Whether the quarter-size copy of a `width x height` image is small
/// enough for the blur: its pixel count fits in 32 bits and its bytes in
/// memory.
pub open spec fn blur_fits(width: u32, height: u32) -> bool {
    &&& quarter_size(width) * quarter_size(height) <= u32::MAX
    &&& quarter_size(width) * quarter_size(height) * 4 <= usize::MAX
}

/// Decode an encoded image (see [`decode_image`]: by the file name
/// extension when one is given, else by the bytes) and blur it with
/// [`blur_rgba`]. `None` when the bytes do not decode, or when the decoded
/// image is too large for the blur (see [`blur_fits`]).
pub fn blur_encoded(bytes: &[u8], extension: Option<&str>, radius: u32) -> (r: Option<(u32, u32, Vec<u8>)>)
    ensures
        decoding(bytes@, extension_chars(extension)) is None ==> r is None,
        decoding(bytes@, extension_chars(extension)) matches Some((w, h, px)) ==> {
            &&& r is Some <==> blur_fits(w, h)
            &&& r matches Some((w2, h2, out)) ==> {
                &&& w2 == quarter_size(w)
                &&& h2 == quarter_size(h)
                &&& out@.len() == w2 * h2 * 4
            }
        },
{
    let (w, h, px) = match decode_image(bytes, extension) {
        Some(d) => d,
        None => return None,
    };
    let qw: u64 = if w / 4 >= 1 { (w / 4) as u64 } else { 1 };
    let qh: u64 = if h / 4 >= 1 { (h / 4) as u64 } else { 1 };
    assert(qw * qh <= 0xffff_ffff * 0xffff_ffff) by (nonlinear_arith)
        requires
            1 <= qw <= 0xffff_ffff,
            1 <= qh <= 0xffff_ffff,
    ;
    if qw * qh > 0xffff_ffff {
        return None;
    }
    if qw * qh * 4 > usize::MAX as u64 {
        return None;
    }
    blur_rgba(&px, w, h, radius)
}

} // verus!
