//! Output generation: filenames, timestamp formatting, the per-frame and
//! per-run metadata records, and JPEG encoding of representative frames.
//! The filesystem writes themselves happen outside the library, which hands
//! the caller encoded bytes and fully formed records.

use vstd::prelude::*;
use vstd::string::*;

use crate::error::Error;
use crate::numfmt::push_digits;
use crate::numfmt::push_padded2;
use crate::numfmt::push_padded3;
use crate::numfmt::push_padded4;
use crate::numfmt::spec_digits;
use crate::numfmt::spec_pad2;
use crate::numfmt::spec_pad3;
use crate::numfmt::spec_pad4;
use crate::segmentation::SemanticSegment;
use crate::video::Frame;
use crate::video::VideoMetadata;

verus! {

/// Output image quality (1-100).
pub const OUTPUT_IMAGE_QUALITY: u8 = 95;

/// A timestamp rendered as `HH:MM:SS.mmm` (hours grow past two digits when
/// needed).
pub open spec fn spec_format_timestamp(ms: int) -> Seq<char> {
    spec_pad2(ms / 3600000) + seq![':'] + spec_pad2((ms % 3600000) / 60000) + seq![':'] + spec_pad2(
        (ms % 60000) / 1000,
    ) + seq!['.'] + spec_pad3(ms % 1000)
}

/// Format a timestamp in milliseconds as `HH:MM:SS.mmm`.
pub fn format_timestamp(ms: u64) -> (r: String)
    ensures
        r@ == spec_format_timestamp(ms as int),
{
    let mut s = String::new();
    push_padded2(&mut s, ms / 3_600_000);
    s.push(':');
    push_padded2(&mut s, (ms % 3_600_000) / 60_000);
    s.push(':');
    push_padded2(&mut s, (ms % 60_000) / 1_000);
    s.push('.');
    push_padded3(&mut s, ms % 1_000);
    proof {
        assert(s@ =~= spec_format_timestamp(ms as int));
    }
    s
}

/// The output filename for still number `n` (1-based): four zero-padded
/// digits and the fixed lossy image format.
pub open spec fn spec_frame_filename(n: int) -> Seq<char> {
    spec_pad4(n) + seq!['.', 'j', 'p', 'g']
}

/// Filename of still number `frame_number`, for example `0001.jpg`.
pub fn frame_filename(frame_number: usize) -> (r: String)
    ensures
        r@ == spec_frame_filename(frame_number as int),
{
    let mut s = String::new();
    push_padded4(&mut s, frame_number as u64);
    s.push('.');
    s.push('j');
    s.push('p');
    s.push('g');
    proof {
        assert(s@ =~= spec_frame_filename(frame_number as int));
    }
    s
}

/// Metadata for a single extracted frame, as recorded in the manifest.
#[derive(Debug, Clone)]
pub struct FrameMetadata {
    pub filename: String,
    pub segment_index: usize,
    pub frame_index: usize,
    pub timestamp_ms: u64,
    pub timestamp_formatted: String,
}

/// The record for still number `number` standing for segment `seg`.
pub open spec fn spec_frame_metadata_matches(
    m: FrameMetadata,
    seg: SemanticSegment,
    number: int,
) -> bool {
    &&& m.filename@ == spec_frame_filename(number)
    &&& m.segment_index == seg.index
    &&& m.frame_index == seg.representative_frame.frame_index
    &&& m.timestamp_ms == seg.representative_frame.timestamp_ms
    &&& m.timestamp_formatted@ == spec_format_timestamp(
        seg.representative_frame.timestamp_ms as int,
    )
}

impl FrameMetadata {
    /// Build the manifest record for one still: still number `frame_number`
    /// (1-based), standing for `segment`'s representative frame.
    pub fn build(segment: &SemanticSegment, frame_number: usize) -> (m: FrameMetadata)
        ensures
            spec_frame_metadata_matches(m, *segment, frame_number as int),
    {
        FrameMetadata {
            filename: frame_filename(frame_number),
            segment_index: segment.index,
            frame_index: segment.representative_frame.frame_index,
            timestamp_ms: segment.representative_frame.timestamp_ms,
            timestamp_formatted: format_timestamp(segment.representative_frame.timestamp_ms),
        }
    }
}

/// Manifest records for every segment's representative, numbered from 1 in
/// segment order: file `k` corresponds to the segment with index `k - 1`.
pub fn build_frame_metadata_list(segments: &Vec<SemanticSegment>) -> (ms: Vec<FrameMetadata>)
    ensures
        ms@.len() == segments@.len(),
        forall|k: int|
            0 <= k < ms@.len() ==> spec_frame_metadata_matches(#[trigger] ms@[k], segments@[k], k + 1),
{
    let mut ms: Vec<FrameMetadata> = Vec::new();
    let n = segments.len();
    let mut i: usize = 0;
    while i < n
        invariant
            i <= n,
            n == segments@.len(),
            ms@.len() == i,
            forall|k: int|
                0 <= k < i ==> spec_frame_metadata_matches(#[trigger] ms@[k], segments@[k], k + 1),
        decreases n - i,
    {
        let m = FrameMetadata::build(&segments[i], i + 1);
        ms.push(m);
        i = i + 1;
    }
    ms
}

/// Complete metadata for an extraction run: the manifest's stable schema.
#[derive(Debug, Clone)]
pub struct OutputMetadata {
    pub source_video: String,
    pub video_duration_ms: u64,
    pub video_frame_count: u32,
    pub extracted_frames: usize,
    pub detail_level: String,
    pub quality_preset: String,
    pub frames: Vec<FrameMetadata>,
}

impl OutputMetadata {
    /// Assemble the run manifest from the video metadata, the per-frame
    /// records and the policy names. The extracted-frame count always equals
    /// the number of records.
    pub fn build(
        video_metadata: &VideoMetadata,
        frame_metadata: Vec<FrameMetadata>,
        detail_level: String,
        quality_preset: String,
    ) -> (m: OutputMetadata)
        ensures
            m.source_video@ == video_metadata.path@,
            m.video_duration_ms == video_metadata.duration_ms,
            m.video_frame_count == video_metadata.frame_count,
            m.extracted_frames == frame_metadata@.len(),
            m.detail_level == detail_level,
            m.quality_preset == quality_preset,
            m.frames == frame_metadata,
    {
        let extracted_frames = frame_metadata.len();
        OutputMetadata {
            source_video: video_metadata.path.clone(),
            video_duration_ms: video_metadata.duration_ms,
            video_frame_count: video_metadata.frame_count,
            extracted_frames,
            detail_level,
            quality_preset,
            frames: frame_metadata,
        }
    }
}

/// The fixed manifest filename, written last, after all images.
pub open spec fn spec_metadata_filename() -> Seq<char> {
    "metadata.json"@
}

/// Write extracted frames and metadata to disk: the verified side holds the
/// directory name and forms filenames, paths, records and encoded bytes; the
/// caller performs the writes.
#[derive(Debug, Clone)]
pub struct OutputWriter {
    pub output_dir: String,
}

impl OutputWriter {
    /// Create a new output writer, defaulting to the fixed directory name.
    pub fn new(output_dir: Option<String>) -> (w: OutputWriter)
        ensures
            output_dir matches Some(d) ==> w.output_dir == d,
            output_dir is None ==> w.output_dir@ == "scenesplit_output"@,
    {
        match output_dir {
            Some(d) => OutputWriter { output_dir: d },
            None => OutputWriter { output_dir: String::from_str("scenesplit_output") },
        }
    }

    /// The output directory path.
    pub fn output_dir(&self) -> (r: &str)
        ensures
            r@ == self.output_dir@,
    {
        self.output_dir.as_str()
    }

    /// The path of still number `frame_number` inside the output directory.
    pub fn frame_path(&self, frame_number: usize) -> (r: String)
        ensures
            r@ == self.output_dir@ + seq!['/'] + spec_frame_filename(frame_number as int),
    {
        let mut s = self.output_dir.clone();
        s.push('/');
        let name = frame_filename(frame_number);
        s.append(name.as_str());
        proof {
            assert(s@ =~= self.output_dir@ + seq!['/'] + spec_frame_filename(
                frame_number as int,
            ));
        }
        s
    }

    /// The path of the manifest file inside the output directory.
    pub fn metadata_path(&self) -> (r: String)
        ensures
            r@ == self.output_dir@ + seq!['/'] + spec_metadata_filename(),
    {
        let mut s = self.output_dir.clone();
        s.push('/');
        s.append("metadata.json");
        proof {
            assert(s@ =~= self.output_dir@ + seq!['/'] + spec_metadata_filename());
        }
        s
    }
}

/// What the JPEG encoder produces for a raw RGB buffer of the given
/// dimensions at the given quality: a function of those values alone.
pub uninterp spec fn jpeg_encoded(data: Seq<u8>, width: nat, height: nat, quality: nat) -> Seq<u8>;

/// Relies on image's `JpegEncoder::new_with_quality` and `encode_image`:
/// encodes an exact-size RGB buffer as JPEG at the given quality. The result
/// depends on the pixels, dimensions and quality alone and begins with the
/// JPEG start-of-image marker `FF D8`. The encoder's only failure is its
/// dimension check (each side must fit 1..=65535); every later path writes
/// into the in-memory buffer, which cannot fail, so success is owed whenever
/// the dimensions are in range.
#[verifier::external_body]
fn jpeg_encode_rgb(data: &Vec<u8>, width: u32, height: u32, quality: u8) -> (r: Option<Vec<u8>>)
    requires
        data@.len() == 3 * width * height,
    ensures
        r matches Some(bytes) ==> {
            &&& bytes@ == jpeg_encoded(data@, width as nat, height as nat, quality as nat)
            &&& bytes@.len() >= 2
            &&& bytes@[0] == 0xff
            &&& bytes@[1] == 0xd8
        },
        1 <= width <= 65535 && 1 <= height <= 65535 ==> r is Some,
{
    let img: image::ImageBuffer<image::Rgb<u8>, Vec<u8>> = image::ImageBuffer::from_raw(
        width,
        height,
        data.clone(),
    )?;
    let mut buf: Vec<u8> = Vec::new();
    let mut encoder = image::codecs::jpeg::JpegEncoder::new_with_quality(&mut buf, quality);
    match encoder.encode_image(&img) {
        Ok(()) => Some(buf),
        Err(_) => None,
    }
}

/// The message for a frame whose pixel buffer does not match its dimensions.
pub open spec fn spec_buffer_error_message(n: int) -> Seq<char> {
    "Failed to create image buffer for frame "@ + spec_digits(n)
}

/// The message for a frame the encoder refused.
pub open spec fn spec_encode_error_message(n: int) -> Seq<char> {
    "Failed to encode frame "@ + spec_digits(n)
}

/// Encode still number `frame_number`'s pixels as JPEG at the fixed quality.
/// A frame whose buffer does not hold exactly width x height RGB triples is
/// rejected before the encoder runs; an encoder refusal is reported as an
/// output error. Success is owed for every well-formed frame whose sides
/// fit the JPEG dimension range.
pub fn encode_frame(frame: &Frame, frame_number: usize) -> (r: Result<Vec<u8>, Error>)
    ensures
        frame.wf() && 1 <= frame.width <= 65535 && 1 <= frame.height <= 65535 ==> r is Ok,
        r matches Ok(bytes) ==> {
            &&& frame.wf()
            &&& bytes@ == jpeg_encoded(
                frame.data@,
                frame.width as nat,
                frame.height as nat,
                OUTPUT_IMAGE_QUALITY as nat,
            )
            &&& bytes@.len() >= 2
            &&& bytes@[0] == 0xff
            &&& bytes@[1] == 0xd8
        },
        !frame.wf() ==> (r matches Err(e) && e matches Error::Output(m) && m@
            == spec_buffer_error_message(frame_number as int)),
        r matches Err(e) ==> e matches Error::Output(m) && (m@ == spec_buffer_error_message(
            frame_number as int,
        ) || m@ == spec_encode_error_message(frame_number as int)),
{
    proof {
        assert(3 * (frame.width as int) * (frame.height as int) <= 3 * 0xffff_ffff * 0xffff_ffff)
            by (nonlinear_arith)
            requires
                frame.width <= 0xffff_ffff,
                frame.height <= 0xffff_ffff,
        ;
    }
    let expected: u128 = 3u128 * (frame.width as u128) * (frame.height as u128);
    if (frame.data.len() as u128) != expected {
        let mut m = String::from_str("Failed to create image buffer for frame ");
        push_digits(&mut m, frame_number as u64);
        return Err(Error::Output(m));
    }
    match jpeg_encode_rgb(&frame.data, frame.width, frame.height, OUTPUT_IMAGE_QUALITY) {
        Some(bytes) => Ok(bytes),
        None => {
            let mut m = String::from_str("Failed to encode frame ");
            push_digits(&mut m, frame_number as u64);
            Err(Error::Output(m))
        },
    }
}

} // verus!
