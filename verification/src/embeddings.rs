//! The embedded-frame record consumed by the segmentation engine, and the
//! pure preprocessing steps of the embedding stage.
//!
//! The embedding vectors themselves are real-valued and live with the
//! inference runtime in the unverified front end; the engine only ever reads
//! per-frame similarity verdicts, so the record here carries the plain values
//! the core logic needs: the source frame index and the timestamp. Pixel
//! buffers are stored arena-style by the caller, keyed by position in the
//! sampled sequence.

use vstd::prelude::*;
use vstd::string::*;

use crate::error::Error;
use crate::video::Frame;

verus! {

/// A sampled frame after embedding: the plain facts the engine reads.
/// The position of this record in the embedded sequence keys the caller's
/// arena of pixel buffers and embedding vectors.
#[derive(Debug, Clone, Copy, PartialEq, Eq, Structural)]
pub struct EmbeddedFrame {
    /// Source frame ordinal (not sample ordinal).
    pub frame_index: usize,
    /// Timestamp in milliseconds from the start of the video.
    pub timestamp_ms: u64,
}

impl EmbeddedFrame {
    /// Original frame index.
    pub fn index(&self) -> (i: usize)
        ensures
            i == self.frame_index,
    {
        self.frame_index
    }
}

/// An edge length after downscaling by `percent`.
pub open spec fn spec_scaled_dim(d: int, percent: int) -> int {
    d * percent / 100
}

/// Frame dimensions after downscaling by `percent` (100 keeps them).
pub fn scaled_dimensions(width: u32, height: u32, percent: u32) -> (r: (u32, u32))
    requires
        1 <= percent <= 100,
    ensures
        r.0 == spec_scaled_dim(width as int, percent as int),
        r.1 == spec_scaled_dim(height as int, percent as int),
{
    proof {
        assert((width as int) * (percent as int) <= (width as int) * 100 && 0 <= (width as int) * (
        percent as int) && (width as int) * (percent as int) / 100 <= width as int)
            by (nonlinear_arith)
            requires
                width <= 0xffff_ffff,
                1 <= percent <= 100,
        ;
        assert((height as int) * (percent as int) <= (height as int) * 100 && 0 <= (height as int)
            * (percent as int) && (height as int) * (percent as int) / 100 <= height as int)
            by (nonlinear_arith)
            requires
                height <= 0xffff_ffff,
                1 <= percent <= 100,
        ;
    }
    let w = ((width as u64) * (percent as u64) / 100) as u32;
    let h = ((height as u64) * (percent as u64) / 100) as u32;
    (w, h)
}

/// The batch ranges covering positions `0 .. total` in order: contiguous,
/// each of exactly `batch` items except a shorter final one.
pub fn chunk_ranges(total: usize, batch: usize) -> (r: Vec<(usize, usize)>)
    requires
        batch >= 1,
    ensures
        total == 0 ==> r@.len() == 0,
        total > 0 ==> r@.len() >= 1 && r@[0].0 == 0 && r@.last().1 == total,
        forall|k: int| 0 <= k < r@.len() ==> (#[trigger] r@[k]).0 < r@[k].1 <= total,
        forall|k: int|
            0 <= k < r@.len() - 1 ==> (#[trigger] r@[k]).1 == r@[k + 1].0 && r@[k].1 - r@[k].0
                == batch,
        r@.len() >= 1 ==> r@.last().1 - r@.last().0 <= batch,
{
    let mut r: Vec<(usize, usize)> = Vec::new();
    let mut s: usize = 0;
    while s < total
        invariant
            batch >= 1,
            s <= total,
            r@.len() == 0 ==> s == 0,
            r@.len() >= 1 ==> r@[0].0 == 0 && r@.last().1 == s,
            forall|k: int| 0 <= k < r@.len() ==> (#[trigger] r@[k]).0 < r@[k].1 <= total,
            forall|k: int|
                0 <= k < r@.len() - 1 ==> (#[trigger] r@[k]).1 == r@[k + 1].0 && r@[k].1 - r@[k].0
                    == batch,
            r@.len() >= 1 && s < total ==> r@.last().1 - r@.last().0 == batch,
            r@.len() >= 1 ==> r@.last().1 - r@.last().0 <= batch,
        decreases total - s,
    {
        let e = if batch < total - s {
            s + batch
        } else {
            total
        };
        r.push((s, e));
        s = e;
    }
    r
}

/// What the Triangle-filter resampler produces for a raw RGB buffer of the
/// given dimensions: a function of the buffer and the dimensions alone.
pub uninterp spec fn triangle_resized(
    data: Seq<u8>,
    width: nat,
    height: nat,
    new_width: nat,
    new_height: nat,
) -> Seq<u8>;

/// Relies on image's `imageops::resize` with `FilterType::Triangle`:
/// resamples an RGB buffer to the new dimensions. The result depends on the
/// buffer and the dimensions alone, always holds exactly new_width x
/// new_height RGB triples, and resampling to the unchanged dimensions copies
/// the buffer as it is.
#[verifier::external_body]
fn resize_rgb_triangle(
    data: &Vec<u8>,
    width: u32,
    height: u32,
    new_width: u32,
    new_height: u32,
) -> (r: Vec<u8>)
    requires
        data@.len() == 3 * width * height,
    ensures
        r@ == triangle_resized(
            data@,
            width as nat,
            height as nat,
            new_width as nat,
            new_height as nat,
        ),
        r@.len() == 3 * new_width * new_height,
        width == new_width && height == new_height ==> r@ == data@,
{
    let img: image::RgbImage = image::ImageBuffer::from_raw(width, height, data.clone()).expect(
        "buffer size matches dimensions",
    );
    image::imageops::resize(&img, new_width, new_height, image::imageops::FilterType::Triangle)
        .into_raw()
}

/// The bytes handed to the embedding model for a frame under a resize
/// percentage: below 100, a downscale by that percentage and then a
/// resample to the model's 224 x 224 input; at 100, the direct resample.
pub open spec fn spec_preprocessed(frame: Frame, percent: int) -> Seq<u8> {
    if percent < 100 {
        let sw = spec_scaled_dim(frame.width as int, percent);
        let sh = spec_scaled_dim(frame.height as int, percent);
        triangle_resized(
            triangle_resized(frame.data@, frame.width as nat, frame.height as nat, sw as nat, sh as nat),
            sw as nat,
            sh as nat,
            224,
            224,
        )
    } else {
        triangle_resized(frame.data@, frame.width as nat, frame.height as nat, 224, 224)
    }
}

/// Resize a frame for the embedding model: an optional downscale by the
/// quality preset's percentage with a smooth filter, then the resample to
/// the model's fixed 224 x 224 input size. A frame whose buffer does not
/// hold exactly width x height RGB triples is rejected.
pub fn preprocess_resize(frame: &Frame, percent: u32) -> (r: Result<Vec<u8>, Error>)
    requires
        1 <= percent <= 100,
    ensures
        r matches Ok(bytes) ==> {
            &&& frame.wf()
            &&& bytes@ == spec_preprocessed(*frame, percent as int)
            &&& bytes@.len() == 3 * 224 * 224
        },
        r is Err <==> !frame.wf(),
        r matches Err(e) ==> (e matches Error::Embedding(m) && m@
            == "Failed to create image from frame data"@),
{
    proof {
        assert(3 * (frame.width as int) * (frame.height as int) <= 3 * 0xffff_ffff * 0xffff_ffff)
            by (nonlinear_arith)
            requires
                frame.width <= 0xffff_ffff,
                frame.height <= 0xffff_ffff,
        ;
    }
    let expected: u128 = 3u128 * (frame.width as u128) * (frame.height as u128);
    if (frame.data.len() as u128) != expected {
        return Err(Error::Embedding(String::from_str("Failed to create image from frame data")));
    }
    if percent < 100 {
        let (sw, sh) = scaled_dimensions(frame.width, frame.height, percent);
        let half = resize_rgb_triangle(&frame.data, frame.width, frame.height, sw, sh);
        let full = resize_rgb_triangle(&half, sw, sh, 224, 224);
        Ok(full)
    } else {
        let full = resize_rgb_triangle(&frame.data, frame.width, frame.height, 224, 224);
        Ok(full)
    }
}

} // verus!
