//! Image encoding, from outside crates: PNG through `image`, base64 through
//! `base64`.
use vstd::prelude::*;

verus! {

/// The PNG file that `image` writes for an RGBA8 pixel buffer of exactly
/// four bytes per pixel, or `None` when the encoder refuses the image.
pub uninterp spec fn png_of(width: u32, height: u32, rgba: Seq<u8>) -> Option<Seq<u8>>;

/// The standard base64 text (with padding) of a byte sequence.
pub uninterp spec fn base64_of(bytes: Seq<u8>) -> Seq<char>;

/// The number of bytes an RGBA8 image of the given size needs.
pub open spec fn rgba_len(width: u32, height: u32) -> int {
    4 * width as int * height as int
}

/// Relies on image::RgbaImage::from_raw (which takes a buffer of exactly
/// four bytes per pixel) and DynamicImage::write_to with ImageFormat::Png,
/// whose PNG encoder refuses a zero width or height. The length is required
/// because the encoder asserts it.
#[verifier::external_body]
pub(crate) fn encode_png(width: u32, height: u32, rgba: Vec<u8>) -> (r: Option<Vec<u8>>)
    requires
        rgba@.len() == rgba_len(width, height),
    ensures
        match r {
            Some(png) => png_of(width, height, rgba@) == Some(png@),
            None => png_of(width, height, rgba@) is None,
        },
        width == 0 || height == 0 ==> r is None,
{
    let buf = image::RgbaImage::from_raw(width, height, rgba)?;
    let img = image::DynamicImage::ImageRgba8(buf);
    let mut out = std::io::Cursor::new(Vec::new());
    img.write_to(&mut out, image::ImageFormat::Png).ok()?;
    Some(out.into_inner())
}

/// Relies on base64's STANDARD engine `encode`.
#[verifier::external_body]
pub(crate) fn encode_base64(bytes: &[u8]) -> (r: String)
    ensures
        r@ == base64_of(bytes@),
{
    base64::Engine::encode(&base64::engine::general_purpose::STANDARD, bytes)
}

/// The bytes a standard base64 text (with padding) decodes to, or `None`
/// when it is not valid base64.
pub uninterp spec fn base64_decoded(text: Seq<char>) -> Option<Seq<u8>>;

/// The RGBA8 pixels of an encoded image file, or `None` when `image`
/// cannot decode it.
pub uninterp spec fn rgba_pixels_of(file: Seq<u8>) -> Option<Seq<u8>>;

/// Relies on base64's STANDARD engine `decode`.
#[verifier::external_body]
pub(crate) fn decode_base64(text: &str) -> (r: Option<Vec<u8>>)
    ensures
        match r {
            Some(b) => base64_decoded(text@) == Some(b@),
            None => base64_decoded(text@) is None,
        },
{
    base64::Engine::decode(&base64::engine::general_purpose::STANDARD, text).ok()
}

/// Relies on image::load_from_memory followed by DynamicImage::to_rgba8
/// and `into_raw`.
#[verifier::external_body]
pub(crate) fn decode_image_rgba(file: &[u8]) -> (r: Option<Vec<u8>>)
    ensures
        match r {
            Some(p) => rgba_pixels_of(file@) == Some(p@),
            None => rgba_pixels_of(file@) is None,
        },
{
    image::load_from_memory(file).ok().map(|img| img.to_rgba8().into_raw())
}

/// The pixels of a stored image: its base64 text decoded, then its PNG file
/// decoded to RGBA8.
pub open spec fn stored_pixels(base64: Seq<char>) -> Option<Seq<u8>> {
    match base64_decoded(base64) {
        Some(file) => rgba_pixels_of(file),
        None => None,
    }
}

/// Decodes a stored image (base64 of a PNG file) to RGBA8 pixels.
pub fn image_pixels(base64: &str) -> (r: Option<Vec<u8>>)
    ensures
        match r {
            Some(p) => stored_pixels(base64@) == Some(p@),
            None => stored_pixels(base64@) is None,
        },
{
    match decode_base64(base64) {
        Some(file) => decode_image_rgba(file.as_slice()),
        None => None,
    }
}

} // verus!
