//! The image transformer: decode with auto-detected source format, resize to
//! the exact target dimensions with a Lanczos (3-lobe) filter, and encode as
//! PNG.
//!
//! The whole pipeline is a pure function of the input bytes and the target
//! size; its result is named by [`png_resized`], so callers' contracts can
//! speak of it exactly, and repeated calls on the same input are proved to
//! agree.

use vstd::prelude::*;

verus! {

/// Why a transform failed.
#[derive(Clone, Copy, Debug, PartialEq, Eq, Structural)]
pub enum TransformError {
    /// The input bytes are not a recognized or decodable image.
    Decode,
    /// Re-encoding the resized image as PNG failed.
    Encode,
}

/// The PNG encoding of `src` decoded and resized to exactly
/// `width` x `height`, or `None` when decoding or encoding fails.
/// A function of its arguments alone.
pub uninterp spec fn png_resized(src: Seq<u8>, width: u32, height: u32) -> Option<Seq<u8>>;

/// Relies on the `image` crate: `ImageReader::with_guessed_format` and
/// `decode` (format auto-detection and decoding), `DynamicImage::resize_exact`
/// with `FilterType::Lanczos3`, and `DynamicImage::write_to` with
/// `ImageFormat::Png` (in-memory PNG encoding). None of them reads anything
/// but its arguments, so both success and result are functions of
/// `(src, width, height)`, named by `png_resized`.
#[verifier::external_body]
fn transform_raw(src: &[u8], width: u32, height: u32) -> (r: Result<Vec<u8>, TransformError>)
    ensures
        r is Ok <==> png_resized(src@, width, height) is Some,
        r is Ok ==> Some(r->Ok_0@) == png_resized(src@, width, height),
{
    let reader = image::ImageReader::new(std::io::Cursor::new(src))
        .with_guessed_format()
        .map_err(|_| TransformError::Decode)?;
    let img = reader.decode().map_err(|_| TransformError::Decode)?;
    let out = img.resize_exact(width, height, image::imageops::FilterType::Lanczos3);
    let mut buf: Vec<u8> = Vec::new();
    out.write_to(&mut std::io::Cursor::new(&mut buf), image::ImageFormat::Png)
        .map_err(|_| TransformError::Encode)?;
    Ok(buf)
}

/// Decode `src` (auto-detecting its format), resize it to exactly
/// `width` x `height` with the fixed high-quality filter, and return the PNG
/// encoding.
pub fn transform_to_png(src: &Vec<u8>, width: u32, height: u32) -> (r: Result<
    Vec<u8>,
    TransformError,
>)
    ensures
        r is Ok <==> png_resized(src@, width, height) is Some,
        r is Ok ==> Some(r->Ok_0@) == png_resized(src@, width, height),
{
    transform_raw(src.as_slice(), width, height)
}

/// The transformer is deterministic: two results of transforming the same
/// bytes to the same target size are byte-identical.
pub proof fn lemma_transform_deterministic(src: Seq<u8>, width: u32, height: u32, r1: Seq<u8>, r2: Seq<u8>)
    requires
        Some(r1) == png_resized(src, width, height),
        Some(r2) == png_resized(src, width, height),
    ensures
        r1 == r2,
{
}

} // verus!
