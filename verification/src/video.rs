//! Video-side data model and the pure decisions of frame loading: which file
//! names are acceptable, which source frames are sampled, what timestamp a
//! frame carries, and how the stream's metadata fields are derived. The
//! decoding itself happens outside the library, which hands in plain values.

use vstd::prelude::*;
use vstd::string::*;

use crate::error::Error;
use crate::numfmt::push_digits;
use crate::numfmt::spec_digits;

verus! {

/// A single raw RGB video frame with metadata.
#[derive(Debug, Clone)]
pub struct Frame {
    /// Source frame ordinal.
    pub index: usize,
    /// Timestamp in milliseconds from the start of the video.
    pub timestamp_ms: u64,
    /// Raw RGB pixel data, row major, three bytes per pixel.
    pub data: Vec<u8>,
    pub width: u32,
    pub height: u32,
}

impl Frame {
    /// The pixel buffer holds exactly width x height RGB triples.
    pub open spec fn wf(self) -> bool {
        self.data@.len() == 3 * self.width * self.height
    }

    /// Timestamp in milliseconds.
    pub fn timestamp_ms(&self) -> (t: u64)
        ensures
            t == self.timestamp_ms,
    {
        self.timestamp_ms
    }
}

/// Metadata extracted from a video file.
#[derive(Debug, Clone)]
pub struct VideoMetadata {
    pub path: String,
    pub width: u32,
    pub height: u32,
    /// Frame rate in thousandths of a frame per second.
    pub fps_millis: u64,
    pub frame_count: u32,
    pub duration_ms: u64,
    /// Codec name decoded from the stream's four-character code.
    pub codec: String,
}

/// Total duration in milliseconds: frame count over frame rate, or 0 when
/// the rate is unknown.
pub open spec fn spec_duration_ms(frame_count: int, fps_millis: int) -> int {
    if fps_millis == 0 {
        0
    } else {
        frame_count * 1000000 / fps_millis
    }
}

/// The four characters packed into a four-character code, least significant
/// byte first.
pub open spec fn spec_fourcc_chars(fourcc: u32) -> Seq<char> {
    seq![
        ((fourcc & 0xFF) as u8) as char,
        (((fourcc >> 8) & 0xFF) as u8) as char,
        (((fourcc >> 16) & 0xFF) as u8) as char,
        (((fourcc >> 24) & 0xFF) as u8) as char,
    ]
}

/// `s` without its leading blanks.
pub open spec fn spec_trim_start(s: Seq<char>) -> Seq<char>
    decreases s.len(),
{
    if s.len() > 0 && s[0] == ' ' {
        spec_trim_start(s.drop_first())
    } else {
        s
    }
}

/// `s` without its trailing blanks.
pub open spec fn spec_trim_end(s: Seq<char>) -> Seq<char>
    decreases s.len(),
{
    if s.len() > 0 && s.last() == ' ' {
        spec_trim_end(s.drop_last())
    } else {
        s
    }
}

/// `s` without leading and trailing blanks.
pub open spec fn spec_trim(s: Seq<char>) -> Seq<char> {
    spec_trim_end(spec_trim_start(s))
}

/// Decode a four-character code into a codec name, dropping the blank
/// padding at either end.
pub fn decode_fourcc(fourcc: u32) -> (r: String)
    ensures
        r@ == spec_trim(spec_fourcc_chars(fourcc)),
{
    let mut s = String::new();
    s.push(((fourcc & 0xFF) as u8) as char);
    s.push((((fourcc >> 8) & 0xFF) as u8) as char);
    s.push((((fourcc >> 16) & 0xFF) as u8) as char);
    s.push((((fourcc >> 24) & 0xFF) as u8) as char);
    let ghost s0 = spec_fourcc_chars(fourcc);
    proof {
        assert(s@ =~= s0);
        assert(s0.subrange(0, 4) =~= s0);
    }
    let mut start: usize = 0;
    while start < 4 && s.as_str().get_char(start) == ' '
        invariant
            s@ == s0,
            s0.len() == 4,
            0 <= start <= 4,
            spec_trim_start(s0) == spec_trim_start(s0.subrange(start as int, 4)),
        decreases 4 - start,
    {
        proof {
            assert(s0.subrange(start as int, 4).drop_first() =~= s0.subrange(start as int + 1, 4));
        }
        start = start + 1;
    }
    proof {
        if start < 4 {
            assert(spec_trim_start(s0) == s0.subrange(start as int, 4));
        } else {
            assert(s0.subrange(4, 4) =~= Seq::<char>::empty());
            assert(spec_trim_start(s0) =~= s0.subrange(start as int, 4));
        }
    }
    let ghost mid = s0.subrange(start as int, 4);
    let mut end: usize = 4;
    while end > start && s.as_str().get_char(end - 1) == ' '
        invariant
            s@ == s0,
            s0.len() == 4,
            start <= end <= 4,
            mid == s0.subrange(start as int, 4),
            spec_trim_end(mid) == spec_trim_end(s0.subrange(start as int, end as int)),
        decreases end,
    {
        proof {
            assert(s0.subrange(start as int, end as int).drop_last() =~= s0.subrange(
                start as int,
                end as int - 1,
            ));
        }
        end = end - 1;
    }
    proof {
        if end > start {
            assert(spec_trim_end(mid) == s0.subrange(start as int, end as int));
        } else {
            assert(s0.subrange(start as int, start as int) =~= Seq::<char>::empty());
            assert(spec_trim_end(mid) =~= s0.subrange(start as int, end as int));
        }
    }
    s.as_str().substring_char(start, end).to_owned()
}

impl VideoMetadata {
    /// Assemble the metadata record from the raw stream properties: the
    /// duration is derived from frame count and rate, the codec name from
    /// the four-character code.
    pub fn new(
        path: String,
        width: u32,
        height: u32,
        fps_millis: u64,
        frame_count: u32,
        fourcc: u32,
    ) -> (m: VideoMetadata)
        ensures
            m.path == path,
            m.width == width,
            m.height == height,
            m.fps_millis == fps_millis,
            m.frame_count == frame_count,
            m.duration_ms == spec_duration_ms(frame_count as int, fps_millis as int),
            m.codec@ == spec_trim(spec_fourcc_chars(fourcc)),
    {
        let duration_ms: u64 = if fps_millis == 0 {
            0
        } else {
            (frame_count as u64) * 1_000_000 / fps_millis
        };
        let codec = decode_fourcc(fourcc);
        VideoMetadata { path, width, height, fps_millis, frame_count, duration_ms, codec }
    }
}

/// Whether source frame `index` is sampled at stride `stride`: exactly the
/// multiples of the stride, so frame 0 is always included.
pub fn is_sampled_index(index: usize, stride: usize) -> (r: bool)
    requires
        stride >= 1,
    ensures
        r == (index % stride == 0),
{
    index % stride == 0
}

/// Timestamp in milliseconds of source frame `index`: index over the frame
/// rate, or 0 when the rate is unknown.
pub open spec fn spec_frame_timestamp_ms(index: int, fps_millis: int) -> int {
    if fps_millis == 0 {
        0
    } else {
        index * 1000000 / fps_millis
    }
}

pub fn frame_timestamp_ms(index: usize, fps_millis: u64) -> (t: u64)
    requires
        index <= u32::MAX,
    ensures
        t == spec_frame_timestamp_ms(index as int, fps_millis as int),
{
    if fps_millis == 0 {
        0
    } else {
        (index as u64) * 1_000_000 / fps_millis
    }
}

/// The out-of-range message for a frame index against the stream's count.
pub open spec fn spec_frame_range_message(index: int, frame_count: int) -> Seq<char> {
    "Frame index "@ + spec_digits(index) + " out of range [0, "@ + spec_digits(frame_count) + ")"@
}

/// Check a requested frame index against the stream's frame count; exactly
/// the indices below the count are in range.
pub fn check_frame_index(index: usize, frame_count: u32, path: &str) -> (r: Result<(), Error>)
    requires
        index <= u32::MAX,
    ensures
        r is Ok <==> index < frame_count,
        r matches Err(e) ==> e matches Error::VideoDecode { path: p, reason }
            && p@ == path@
            && reason@ == spec_frame_range_message(index as int, frame_count as int),
{
    if index < frame_count as usize {
        Ok(())
    } else {
        let mut reason = String::from_str("Frame index ");
        push_digits(&mut reason, index as u64);
        reason.append(" out of range [0, ");
        push_digits(&mut reason, frame_count as u64);
        reason.append(")");
        proof {
            assert(reason@ =~= spec_frame_range_message(index as int, frame_count as int));
        }
        Err(Error::VideoDecode { path: path.to_owned(), reason })
    }
}

/// ASCII lower case of one character; other characters are unchanged.
pub open spec fn spec_lower_char(c: char) -> char {
    if 'A' <= c <= 'Z' {
        ((c as u8) + 32) as char
    } else {
        c
    }
}

/// ASCII lower case, character by character.
pub open spec fn spec_lower(s: Seq<char>) -> Seq<char> {
    s.map_values(|c: char| spec_lower_char(c))
}

fn lower_char(c: char) -> (r: char)
    ensures
        r == spec_lower_char(c),
{
    if 'A' <= c && c <= 'Z' {
        ((c as u8) + 32) as char
    } else {
        c
    }
}

/// ASCII lower case of a string; non-ASCII characters are unchanged.
pub fn to_ascii_lowercase(s: &str) -> (r: String)
    ensures
        r@ == spec_lower(s@),
{
    let n = s.unicode_len();
    let mut r = String::new();
    let mut i: usize = 0;
    while i < n
        invariant
            i <= n,
            n == s@.len(),
            r@ == spec_lower(s@.subrange(0, i as int)),
        decreases n - i,
    {
        let c = s.get_char(i);
        r.push(lower_char(c));
        proof {
            assert(r@ =~= spec_lower(s@.subrange(0, i as int + 1)));
        }
        i = i + 1;
    }
    proof {
        assert(s@.subrange(0, n as int) =~= s@);
    }
    r
}

/// Position of the last occurrence of `c` in `s`, or -1 if absent.
pub open spec fn spec_last_index_of(s: Seq<char>, c: char) -> int
    decreases s.len(),
{
    if s.len() == 0 {
        -1
    } else if s.last() == c {
        s.len() - 1
    } else {
        spec_last_index_of(s.drop_last(), c)
    }
}

proof fn lemma_last_index_of(s: Seq<char>, c: char)
    ensures
        ({
            let r = spec_last_index_of(s, c);
            &&& -1 <= r < s.len()
            &&& r >= 0 ==> s[r] == c
            &&& forall|j: int| r < j < s.len() ==> s[j] != c
        }),
    decreases s.len(),
{
    if s.len() > 0 && s.last() != c {
        lemma_last_index_of(s.drop_last(), c);
        let r = spec_last_index_of(s, c);
        assert forall|j: int| r < j < s.len() implies s[j] != c by {
            if j < s.len() - 1 {
                assert(s.drop_last()[j] == s[j]);
            }
        }
    }
}

fn last_index_of(s: &str, c: char) -> (r: Option<usize>)
    ensures
        r matches Some(i) ==> i as int == spec_last_index_of(s@, c),
        r is None ==> spec_last_index_of(s@, c) == -1,
{
    proof {
        lemma_last_index_of(s@, c);
    }
    let n = s.unicode_len();
    let mut i = n;
    while i > 0
        invariant
            i <= n,
            n == s@.len(),
            spec_last_index_of(s@, c) < i as int,
        decreases i,
    {
        i = i - 1;
        proof {
            lemma_last_index_of(s@, c);
        }
        if s.get_char(i) == c {
            return Some(i);
        }
    }
    None
}

/// The file name part of a path: everything after the last separator.
pub open spec fn spec_file_name(path: Seq<char>) -> Seq<char> {
    path.subrange(spec_last_index_of(path, '/') + 1, path.len() as int)
}

/// The extension of a path: everything after the last dot of the file name,
/// empty when the file name has no dot or only a leading one.
pub open spec fn spec_extension(path: Seq<char>) -> Seq<char> {
    let name = spec_file_name(path);
    let d = spec_last_index_of(name, '.');
    if d <= 0 {
        Seq::empty()
    } else {
        name.subrange(d + 1, name.len() as int)
    }
}

/// The fixed set of supported container formats, matched against the
/// lower-cased extension.
pub open spec fn spec_is_supported_format(ext: Seq<char>) -> bool {
    ||| ext == "mp4"@
    ||| ext == "avi"@
    ||| ext == "mov"@
    ||| ext == "mkv"@
    ||| ext == "webm"@
    ||| ext == "m4v"@
    ||| ext == "flv"@
    ||| ext == "wmv"@
    ||| ext == "mpeg"@
    ||| ext == "mpg"@
}

fn is_supported_format(ext: &String) -> (r: bool)
    ensures
        r == spec_is_supported_format(ext@),
{
    *ext == String::from_str("mp4") || *ext == String::from_str("avi") || *ext
        == String::from_str("mov") || *ext == String::from_str("mkv") || *ext == String::from_str(
        "webm",
    ) || *ext == String::from_str("m4v") || *ext == String::from_str("flv") || *ext
        == String::from_str("wmv") || *ext == String::from_str("mpeg") || *ext
        == String::from_str("mpg")
}

/// Check a path's extension against the supported set, case-insensitively
/// (ASCII folding). Exactly the supported extensions pass; anything else is
/// an `UnsupportedFormat` error carrying the path and the folded extension.
pub fn validate_extension(path: &str) -> (r: Result<(), Error>)
    ensures
        r is Ok <==> spec_is_supported_format(spec_lower(spec_extension(path@))),
        r matches Err(e) ==> e matches Error::UnsupportedFormat { path: p, extension: ex }
            && p@ == path@
            && ex@ == spec_lower(spec_extension(path@)),
{
    let n = path.unicode_len();
    proof {
        lemma_last_index_of(path@, '/');
    }
    let name_start: usize = match last_index_of(path, '/') {
        Some(i) => i + 1,
        None => 0,
    };
    let name = path.substring_char(name_start, n);
    proof {
        assert(name@ =~= spec_file_name(path@));
    }
    let m = name.unicode_len();
    proof {
        lemma_last_index_of(name@, '.');
    }
    let dot = last_index_of(name, '.');
    let ext: String = if let Some(d) = dot {
        if d > 0 {
            to_ascii_lowercase(name.substring_char(d + 1, m))
        } else {
            String::new()
        }
    } else {
        String::new()
    };
    proof {
        let d = spec_last_index_of(name@, '.');
        if d <= 0 {
            assert(spec_extension(path@) =~= Seq::<char>::empty());
            assert(spec_lower(Seq::<char>::empty()) =~= Seq::<char>::empty());
        }
        assert(ext@ =~= spec_lower(spec_extension(path@)));
    }
    if is_supported_format(&ext) {
        Ok(())
    } else {
        Err(Error::UnsupportedFormat { path: path.to_owned(), extension: ext })
    }
}

} // verus!
