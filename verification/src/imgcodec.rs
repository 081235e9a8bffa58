#![verifier::loop_isolation(false)]
//! Trusted bridge to the image codec: decoding asset and photo bytes into
//! plain pixel buffers that the verified pipeline consumes.

use vstd::prelude::*;

verus! {

/// Whether the image codec can decode the byte stream at all.
pub uninterp spec fn decodes(bytes: Seq<u8>) -> bool;

/// The pixels of the decoded image after an exact nearest-neighbor resize
/// to `w` by `h` and a grayscale conversion: a function of the bytes and
/// the target size alone.
pub uninterp spec fn gray_of(bytes: Seq<u8>, w: u32, h: u32) -> Seq<u8>;

/// The decoded image as (width, height, row-major RGB bytes): a function
/// of the bytes alone.
pub uninterp spec fn rgb_of(bytes: Seq<u8>) -> (u32, u32, Seq<u8>);

/// Relies on image::load_from_memory to decode the bytes, on
/// DynamicImage::resize_exact with the nearest-neighbor filter to scale the
/// result to exactly `w` by `h`, and on DynamicImage::to_luma8 to reduce it
/// to one channel; the raw buffer of a `w` by `h` single-channel image has
/// exactly `w * h` bytes. Decoding fails exactly when the codec rejects the
/// bytes, and the whole chain is deterministic in its arguments.
#[verifier::external_body]
pub(crate) fn load_teaser_gray(bytes: &Vec<u8>, w: u32, h: u32) -> (r: Option<Vec<u8>>)
    requires
        1 <= w <= 2000,
        1 <= h <= 2000,
    ensures
        r is Some <==> decodes(bytes@),
        r matches Some(v) ==> v@ == gray_of(bytes@, w, h) && v@.len() == w * h,
{
    match image::load_from_memory(bytes.as_slice()) {
        Ok(img) => Some(
            img.resize_exact(w, h, image::imageops::FilterType::Nearest).to_luma8().into_raw(),
        ),
        Err(_) => None,
    }
}

/// Relies on image::load_from_memory and DynamicImage::to_rgb8: the raw
/// buffer of a `w` by `h` RGB image has exactly `3 * w * h` bytes, and
/// decoding is deterministic in the bytes and fails exactly when the codec
/// rejects them.
#[verifier::external_body]
pub(crate) fn load_icon_rgb(bytes: &Vec<u8>) -> (r: Option<(u32, u32, Vec<u8>)>)
    ensures
        r is Some <==> decodes(bytes@),
        r matches Some(t) ==> (t.0, t.1, t.2@) == rgb_of(bytes@) && t.2@.len() == 3 * (t.0 as int)
            * (t.1 as int),
{
    match image::load_from_memory(bytes.as_slice()) {
        Ok(img) => {
            let rgb = img.to_rgb8();
            let (w, h) = (rgb.width(), rgb.height());
            Some((w, h, rgb.into_raw()))
        },
        Err(_) => None,
    }
}

} // verus!
