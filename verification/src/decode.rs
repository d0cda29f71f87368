//! Decoding encoded image files (PNG, JPEG, GIF, WebP, ...) into RGBA
//! pixels, done by the `image` crate: by the format the bytes show, or by
//! the one the file name extension names.
use vstd::prelude::*;

verus! {

/// The width, height and RGBA pixels `image::load_from_memory` decodes
/// from `bytes` (converted to 8-bit RGBA), or `None` when they are not an
/// image of a supported format.
pub uninterp spec fn decoded_rgba(bytes: Seq<u8>) -> Option<(u32, u32, Seq<u8>)>;

/// Decodes an encoded image with `image::load_from_memory`, guessing the
/// format from the bytes, and converts it to 8-bit RGBA.
///
/// Claimed of the library: the result is determined by the bytes (named
/// [`decoded_rgba`]), and a decoded image holds exactly `width * height`
/// RGBA pixels.
#[verifier::external_body]
pub(crate) fn decode_rgba(bytes: &[u8]) -> (r: Option<(u32, u32, Vec<u8>)>)
    ensures
        r is None <==> decoded_rgba(bytes@) is None,
        r matches Some((w, h, px)) ==> decoded_rgba(bytes@) == Some((w, h, px@)) && px@.len() == w
            * h * 4,
{
    let rgba = image::load_from_memory(bytes).ok()?.into_rgba8();
    let (w, h) = rgba.dimensions();
    Some((w, h, rgba.into_raw()))
}

/// The width, height and RGBA pixels the `image` crate decodes from
/// `bytes` read as the format that the file name extension `extension`
/// stands for (as `image::open` does), or `None` when the extension names
/// no supported format or the bytes are not an image of it.
pub uninterp spec fn decoded_rgba_as(bytes: Seq<u8>, extension: Seq<char>) -> Option<(u32, u32, Seq<u8>)>;

/// Decodes the contents of an image file the way `image::open` does: the
/// format is the one `image::ImageFormat::from_extension` gives for the
/// file name extension, and `image::load_from_memory_with_format` decodes
/// it; the result is converted to 8-bit RGBA.
///
/// Claimed of the library: the result is determined by the bytes and the
/// extension (named [`decoded_rgba_as`]), and a decoded image holds exactly
/// `width * height` RGBA pixels.
#[verifier::external_body]
pub(crate) fn decode_rgba_as(bytes: &[u8], extension: &str) -> (r: Option<(u32, u32, Vec<u8>)>)
    ensures
        r is None <==> decoded_rgba_as(bytes@, extension@) is None,
        r matches Some((w, h, px)) ==> decoded_rgba_as(bytes@, extension@) == Some((w, h, px@))
            && px@.len() == w * h * 4,
{
    let format = image::ImageFormat::from_extension(extension)?;
    let rgba = image::load_from_memory_with_format(bytes, format).ok()?.into_rgba8();
    let (w, h) = rgba.dimensions();
    Some((w, h, rgba.into_raw()))
}

/// What decoding gives: by the file name extension when there is one
/// (see [`decoded_rgba_as`]), else by the bytes (see [`decoded_rgba`]).
pub open spec fn decoding(bytes: Seq<u8>, extension: Option<Seq<char>>) -> Option<(u32, u32, Seq<u8>)> {
    match extension {
        Some(e) => decoded_rgba_as(bytes, e),
        None => decoded_rgba(bytes),
    }
}

/// An optional extension as characters.
pub open spec fn extension_chars(extension: Option<&str>) -> Option<Seq<char>> {
    match extension {
        Some(e) => Some(e@),
        None => None,
    }
}

/// Decode an encoded image: as the format its file name extension names
/// when one is given ([`decode_rgba_as`]), else as the format its bytes
/// show ([`decode_rgba`]).
pub fn decode_image(bytes: &[u8], extension: Option<&str>) -> (r: Option<(u32, u32, Vec<u8>)>)
    ensures
        r is None <==> decoding(bytes@, extension_chars(extension)) is None,
        r matches Some((w, h, px)) ==> decoding(bytes@, extension_chars(extension)) == Some(
            (w, h, px@),
        ) && px@.len() == w * h * 4,
{
    match extension {
        Some(e) => decode_rgba_as(bytes, e),
        None => decode_rgba(bytes),
    }
}

} // verus!
