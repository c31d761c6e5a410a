//! Screen frames: which display is captured, and the JPEG encoding of the
//! captured pixels (with the `image` crate).

use vstd::prelude::*;

verus! {

/// The JPEG file that the `image` crate writes for an RGBA image of
/// `width` x `height` pixels whose bytes are `rgba`; when it refuses to
/// encode it, the text of its error (`to_string` of the `ImageError`).
pub uninterp spec fn jpeg_encoding(width: u32, height: u32, rgba: Seq<u8>) -> Result<
    Seq<u8>,
    Seq<char>,
>;

/// Wraps the pixels in an `image::RgbaImage` with `ImageBuffer::from_raw`
/// and writes it with `DynamicImage::write_to` in `ImageFormat::Jpeg` to an
/// in-memory buffer; an error is turned into its text with `to_string`. The
/// contract claims that the result is `jpeg_encoding` of the arguments
/// (encoding, and the error it may give, are a function of the pixels).
/// `from_raw` accepts any buffer of at least four bytes per pixel, which
/// `requires` asks for.
#[verifier::external_body]
fn write_jpeg(width: u32, height: u32, rgba: Vec<u8>) -> (r: Result<Vec<u8>, String>)
    requires
        rgba@.len() >= 4 * width * height,
    ensures
        match jpeg_encoding(width, height, rgba@) {
            Ok(j) => r matches Ok(v) && v@ == j,
            Err(m) => r matches Err(e) && e@ == m,
        },
{
    match image::RgbaImage::from_raw(width, height, rgba) {
        Some(img) => {
            let mut out = std::io::Cursor::new(Vec::new());
            match image::DynamicImage::ImageRgba8(img).write_to(&mut out, image::ImageFormat::Jpeg) {
                Ok(()) => Ok(out.into_inner()),
                Err(e) => Err(e.to_string()),
            }
        },
        None => Err(String::new()),
    }
}

/// The JPEG frame sent for a captured screen of `width` x `height` pixels
/// with four bytes (red, green, blue, alpha) per pixel, row after row.
pub fn encode_frame(width: u32, height: u32, rgba: Vec<u8>) -> (r: Result<Vec<u8>, String>)
    requires
        rgba@.len() >= 4 * width * height,
    ensures
        match jpeg_encoding(width, height, rgba@) {
            Ok(j) => r matches Ok(v) && v@ == j,
            Err(m) => r matches Err(e) && e@ == m,
        },
{
    write_jpeg(width, height, rgba)
}

/// The display to capture among those listed, each told by whether it is
/// the primary one: the first primary display.
pub fn primary_monitor(is_primary: &Vec<bool>) -> (i: Option<usize>)
    ensures
        match i {
            Some(k) => k < is_primary@.len() && is_primary@[k as int] && forall|j: int|
                0 <= j < k ==> !is_primary@[j],
            None => forall|j: int| 0 <= j < is_primary@.len() ==> !is_primary@[j],
        },
{
    let mut k: usize = 0;
    while k < is_primary.len()
        invariant
            k <= is_primary@.len(),
            forall|j: int| 0 <= j < k ==> !is_primary@[j],
        decreases is_primary@.len() - k,
    {
        if is_primary[k] {
            return Some(k);
        }
        k = k + 1;
    }
    None
}

/// The display to capture when none is primary, among the `count` displays
/// listed anew: the first one, if there is any.
pub fn fallback_monitor(count: usize) -> (i: Option<usize>)
    ensures
        i == (if count > 0 {
            Some(0usize)
        } else {
            None
        }),
{
    if count > 0 {
        Some(0)
    } else {
        None
    }
}

} // verus!
