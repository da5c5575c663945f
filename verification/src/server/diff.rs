//! Visual comparison of a reference screenshot with the current screen: both
//! are decoded to RGBA pixels, and the pixels whose colour channels all lie
//! within a tolerance are counted.

use vstd::prelude::*;
use base64::Engine;

verus! {

/// Largest difference, per colour channel, of pixels that still match.
pub const CHANNEL_TOLERANCE: i32 = 10;

/// What the standard base64 engine (with padding) decodes a text to, or
/// `None` when the text is not valid base64.
pub uninterp spec fn base64_decoded(input: Seq<char>) -> Option<Seq<u8>>;

/// `base64::engine::general_purpose::STANDARD.decode`: the decoded bytes, or
/// the decoder's error message. The contract ties the result to the input
/// through `base64_decoded`; the text of the message is not stated.
#[verifier::external_body]
fn base64_decode(input: &str) -> (r: Result<Vec<u8>, String>)
    ensures
        match base64_decoded(input@) {
            Some(bytes) => r matches Ok(v) && v@ == bytes,
            None => r is Err,
        },
{
    match base64::engine::general_purpose::STANDARD.decode(input) {
        Ok(v) => Ok(v),
        Err(e) => Err(e.to_string()),
    }
}

/// What `image::load_from_memory` followed by `to_rgba8` makes of encoded
/// image bytes: width, height and the RGBA samples row by row, or `None` when
/// the bytes are not an image the crate can decode.
pub uninterp spec fn rgba_decoded(bytes: Seq<u8>) -> Option<(u32, u32, Seq<u8>)>;

/// `image::load_from_memory(bytes)?.to_rgba8()`: the width, height and raw
/// samples of the RGBA image, or the decoder's error message. The contract
/// ties the result to the bytes through `rgba_decoded`, and states that the
/// samples cover every pixel (four per pixel), which `ImageBuffer` checks
/// whenever one is made; the text of the message is not stated.
#[verifier::external_body]
fn decode_rgba(bytes: &[u8]) -> (r: Result<(u32, u32, Vec<u8>), String>)
    ensures
        match rgba_decoded(bytes@) {
            Some(img) => r matches Ok((w, h, v)) && w == img.0 && h == img.1 && v@ == img.2,
            None => r is Err,
        },
        r matches Ok((w, h, v)) ==> v@.len() >= 4 * w * h,
{
    match image::load_from_memory(bytes) {
        Ok(img) => {
            let rgba = img.to_rgba8();
            let (w, h) = rgba.dimensions();
            Ok((w, h, rgba.into_raw()))
        },
        Err(e) => Err(e.to_string()),
    }
}

/// Two channel values within the tolerance.
pub open spec fn channel_close(a: u8, b: u8) -> bool {
    -CHANNEL_TOLERANCE <= a - b <= CHANNEL_TOLERANCE
}

/// Pixel `i` matches: its red, green and blue samples are close (alpha is
/// ignored).
pub open spec fn pixel_matches(r: Seq<u8>, c: Seq<u8>, i: int) -> bool {
    channel_close(r[4 * i], c[4 * i]) && channel_close(r[4 * i + 1], c[4 * i + 1])
        && channel_close(r[4 * i + 2], c[4 * i + 2])
}

/// Number of matching pixels among the first `n`.
pub open spec fn matching_count(r: Seq<u8>, c: Seq<u8>, n: nat) -> nat
    decreases n,
{
    if n == 0 {
        0
    } else {
        matching_count(r, c, (n - 1) as nat) + if pixel_matches(r, c, n - 1) {
            1nat
        } else {
            0nat
        }
    }
}

proof fn lemma_matching_count_bound(r: Seq<u8>, c: Seq<u8>, n: nat)
    ensures
        matching_count(r, c, n) <= n,
    decreases n,
{
    if n > 0 {
        lemma_matching_count_bound(r, c, (n - 1) as nat);
    }
}

/// Counting one more pixel adds one exactly when each of its red, green and
/// blue samples differs from the reference by at most 10 (alpha aside): a
/// pixel with any colour channel further off is not counted.
pub proof fn lemma_pixel_counted(r: Seq<u8>, c: Seq<u8>, n: nat)
    ensures
        matching_count(r, c, n + 1) == matching_count(r, c, n) + if -10 <= r[(4 * n) as int] - c[(4 * n) as int]
            <= 10 && -10 <= r[(4 * n + 1) as int] - c[(4 * n + 1) as int] <= 10 && -10 <= r[(4 * n + 2) as int]
            - c[(4 * n + 2) as int] <= 10 {
            1int
        } else {
            0int
        },
        matching_count(r, c, n) <= n,
{
    lemma_matching_count_bound(r, c, n);
}

fn close(a: u8, b: u8) -> (r: bool)
    ensures
        r == channel_close(a, b),
{
    let d = a as i32 - b as i32;
    -CHANNEL_TOLERANCE <= d && d <= CHANNEL_TOLERANCE
}

/// Count the matching pixels among the first `pixels` of two RGBA sample
/// buffers.
pub fn count_matching_pixels(reference: &[u8], current: &[u8], pixels: usize) -> (n: usize)
    requires
        reference@.len() >= 4 * pixels,
        current@.len() >= 4 * pixels,
    ensures
        n == matching_count(reference@, current@, pixels as nat),
{
    let rl = reference.len();
    let mut n: usize = 0;
    let mut i: usize = 0;
    while i < pixels
        invariant
            i <= pixels,
            rl == reference@.len(),
            reference@.len() >= 4 * pixels,
            current@.len() >= 4 * pixels,
            n == matching_count(reference@, current@, i as nat),
        decreases pixels - i,
    {
        proof {
            lemma_matching_count_bound(reference@, current@, i as nat);
        }
        let k = 4 * i;
        if close(reference[k], current[k]) && close(reference[k + 1], current[k + 1]) && close(
            reference[k + 2],
            current[k + 2],
        ) {
            n = n + 1;
        }
        i = i + 1;
    }
    n
}

/// The result of comparing two images.
#[derive(Debug, Clone, Copy, PartialEq, Eq, Structural)]
pub enum Comparison {
    /// The images differ in size; nothing was compared.
    DimensionMismatch { reference_width: u32, reference_height: u32, current_width: u32, current_height: u32 },
    /// The images were compared pixel by pixel.
    Compared { width: u32, height: u32, total_pixels: usize, matching_pixels: usize },
}

/// The comparison of two decoded images: a size mismatch, or the pixel count
/// and the number of matching pixels.
pub open spec fn comparison_spec(reference: (u32, u32, Seq<u8>), current: (u32, u32, Seq<u8>)) -> Comparison {
    if reference.0 != current.0 || reference.1 != current.1 {
        Comparison::DimensionMismatch {
            reference_width: reference.0,
            reference_height: reference.1,
            current_width: current.0,
            current_height: current.1,
        }
    } else {
        Comparison::Compared {
            width: reference.0,
            height: reference.1,
            total_pixels: (reference.0 * reference.1) as usize,
            matching_pixels: matching_count(reference.2, current.2, (reference.0 * reference.1) as nat) as usize,
        }
    }
}

/// Compare two decoded RGBA images (see `comparison_spec`).
pub fn compare_images(
    reference_width: u32,
    reference_height: u32,
    reference: &[u8],
    current_width: u32,
    current_height: u32,
    current: &[u8],
) -> (r: Comparison)
    requires
        reference_width * reference_height <= u32::MAX,
        reference@.len() >= 4 * reference_width * reference_height,
        current@.len() >= 4 * current_width * current_height,
    ensures
        r == comparison_spec(
            (reference_width, reference_height, reference@),
            (current_width, current_height, current@),
        ),
{
    if reference_width != current_width || reference_height != current_height {
        return Comparison::DimensionMismatch {
            reference_width,
            reference_height,
            current_width,
            current_height,
        };
    }
    assert(4 * reference_width * reference_height == 4 * (reference_width * reference_height)) by (nonlinear_arith);
    let total = (reference_width * reference_height) as usize;
    let matching = count_matching_pixels(reference, current, total);
    Comparison::Compared {
        width: reference_width,
        height: reference_height,
        total_pixels: total,
        matching_pixels: matching,
    }
}

/// Why a screenshot comparison could not be made.
#[derive(Debug)]
pub enum DiffError {
    /// The reference is not valid base64 (the decoder's message).
    ReferenceEncoding(String),
    /// The reference bytes are not an image (the decoder's message).
    ReferenceImage(String),
    /// The current screenshot is not an image (the decoder's message).
    CurrentImage(String),
    /// The images have more pixels than a 32-bit count holds.
    TooManyPixels,
}

/// Compare a reference screenshot, given in base64, with the encoded current
/// screenshot. Errors come in the order the inputs are decoded: the base64
/// text, the reference image, the current image.
pub fn compare_screenshots(reference_base64: &str, current: &[u8]) -> (r: Result<Comparison, DiffError>)
    ensures
        base64_decoded(reference_base64@) is None ==> r matches Err(DiffError::ReferenceEncoding(_)),
        base64_decoded(reference_base64@) matches Some(bytes) ==> {
            match (rgba_decoded(bytes), rgba_decoded(current@)) {
                (None, _) => r matches Err(DiffError::ReferenceImage(_)),
                (Some(_), None) => r matches Err(DiffError::CurrentImage(_)),
                (Some(a), Some(b)) => if a.0 == b.0 && a.1 == b.1 && a.0 * a.1 > u32::MAX {
                    r matches Err(DiffError::TooManyPixels)
                } else {
                    r matches Ok(c) && c == comparison_spec(a, b)
                },
            }
        },
{
    let reference_bytes = match base64_decode(reference_base64) {
        Ok(v) => v,
        Err(m) => {
            return Err(DiffError::ReferenceEncoding(m));
        },
    };
    let (rw, rh, rpx) = match decode_rgba(reference_bytes.as_slice()) {
        Ok(img) => img,
        Err(m) => {
            return Err(DiffError::ReferenceImage(m));
        },
    };
    let (cw, ch, cpx) = match decode_rgba(current) {
        Ok(img) => img,
        Err(m) => {
            return Err(DiffError::CurrentImage(m));
        },
    };
    if rw != cw || rh != ch {
        return Ok(
            Comparison::DimensionMismatch {
                reference_width: rw,
                reference_height: rh,
                current_width: cw,
                current_height: ch,
            },
        );
    }
    let (rw64, rh64) = (rw as u64, rh as u64);
    assert(rw64 * rh64 <= 0xffff_ffff * 0xffff_ffffu64) by (nonlinear_arith)
        requires
            rw64 <= 0xffff_ffff,
            rh64 <= 0xffff_ffff,
    ;
    if rw64 * rh64 > u32::MAX as u64 {
        return Err(DiffError::TooManyPixels);
    }
    Ok(compare_images(rw, rh, rpx.as_slice(), cw, ch, cpx.as_slice()))
}

} // verus!
