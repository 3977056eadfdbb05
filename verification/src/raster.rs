//! Trusted boundary to the raster-image collaborator.
//!
//! The logo leaves and enters the crate as a PNG. Serializing and parsing
//! that container format is the image crate's job; these wrappers carry the
//! 48x8 single-channel grid across that boundary as plain bytes, and the
//! uninterpreted names below stand for what the collaborator computes.

use vstd::prelude::*;

verus! {

/// The PNG serialization, with the image crate's default settings, of a
/// 48x8 single-channel grid given row-major with one byte per sample. The
/// encoder's output depends on the samples alone.
pub uninterp spec fn png_luma_48x8(pixels: Seq<u8>) -> Seq<u8>;

/// Whether the image crate's PNG decoder accepts `bytes`. A function of the
/// bytes alone.
pub uninterp spec fn png_readable(bytes: Seq<u8>) -> bool;

/// The 8-bit single-channel view of a decodable PNG: width, height and the
/// row-major samples, or `None` when the decoded image has another channel
/// layout. A function of the bytes alone.
pub uninterp spec fn png_gray_of(bytes: Seq<u8>) -> Option<(u32, u32, Seq<u8>)>;

/// Relies on image::GrayImage::from_raw, which accepts every buffer holding
/// width * height samples, and image::DynamicImage::write_to with the PNG
/// format, whose output is a function of the image's samples alone. Neither
/// call can fail here: the buffer holds exactly 48 * 8 samples, 8-bit
/// grayscale is a valid PNG color/depth combination, the data size matches
/// the dimensions, and every write goes into an in-memory buffer, so none
/// of the encoder's error returns is reachable.
#[verifier::external_body]
pub(crate) fn write_png_gray(pixels: &Vec<u8>) -> (r: Vec<u8>)
    requires
        pixels@.len() == 384,
    ensures
        r@ == png_luma_48x8(pixels@),
{
    let img = image::GrayImage::from_raw(48, 8, pixels.clone())
        .expect("a 48x8 image fits a 384-byte buffer");
    let mut buf = Vec::new();
    image::DynamicImage::ImageLuma8(img)
        .write_to(&mut buf, image::ImageFormat::Png)
        .expect("PNG encoding into memory");
    buf
}

/// Relies on image::load_from_memory_with_format with the PNG format and
/// image::DynamicImage::as_luma8, both functions of the bytes alone: `None`
/// when the decoder rejects the bytes, `Some(None)` when the decoded image
/// is not 8-bit single-channel, and otherwise the width, height and
/// row-major samples (ImageBuffer::pixels yields exactly width * height
/// one-byte samples).
#[verifier::external_body]
pub(crate) fn read_png_gray(bytes: &Vec<u8>) -> (r: Option<Option<(u32, u32, Vec<u8>)>>)
    ensures
        r is Some <==> png_readable(bytes@),
        (r matches Some(inner) ==> match inner {
            Some(t) => png_gray_of(bytes@) == Some((t.0, t.1, t.2@)) && t.2@.len() == t.0 as nat
                * t.1 as nat,
            None => png_gray_of(bytes@) is None,
        }),
{
    let img = match image::load_from_memory_with_format(bytes, image::ImageFormat::Png) {
        Ok(img) => img,
        Err(_) => return None,
    };
    match img.as_luma8() {
        Some(g) => Some(Some((g.width(), g.height(), g.pixels().map(|p| p.0[0]).collect()))),
        None => Some(None),
    }
}

} // verus!
