//! Semantic segmentation and frame selection.
//!
//! The engine consumes the embedded-frame sequence in one pass. It keeps an
//! anchor embedding for the open segment; each subsequent frame is compared
//! to the anchor by cosine similarity. A semantic break is declared iff the
//! similarity falls below the policy threshold AND the open segment has
//! already accumulated the policy's minimum number of frames. On a break the
//! open segment is closed and the anchor restarts at the new frame; otherwise
//! the frame joins the segment and the anchor drifts by exponential moving
//! average.
//!
//! The anchor arithmetic is real-valued and lives with the caller; the engine
//! is driven one frame at a time through [`SemanticSegmenter::step`], which
//! takes the per-frame verdict `below` (similarity below threshold) and makes
//! every decision that shapes the output: when a break is honored, how
//! segments are numbered and bounded, and which frame represents a segment.
//! [`SemanticSegmenter::segment`] runs the same pass over a precomputed
//! verdict sequence and is proved to return exactly [`spec_segments`].

use vstd::prelude::*;
use vstd::seq_lib::*;

use crate::config::DetailLevel;
use crate::embeddings::EmbeddedFrame;

verus! {

/// A segment of semantically similar frames: a contiguous run of positions
/// `start_pos ..= end_pos` in the embedded sequence, with the source frame
/// indices of its endpoints and one representative frame.
#[derive(Debug, Clone, Copy, PartialEq, Eq, Structural)]
pub struct SemanticSegment {
    /// 0-based sequential segment number, equal to its position in the output.
    pub index: usize,
    /// Source frame index of the first member.
    pub start_frame_idx: usize,
    /// Source frame index of the last member.
    pub end_frame_idx: usize,
    /// The member at the floor midpoint of the segment.
    pub representative_frame: EmbeddedFrame,
    /// Number of embedded frames folded into the segment.
    pub frame_count: usize,
    /// Position of the first member in the embedded sequence.
    pub start_pos: usize,
    /// Position of the last member in the embedded sequence.
    pub end_pos: usize,
    /// Position of the representative in the embedded sequence.
    pub representative_pos: usize,
}

impl SemanticSegment {
    /// Timestamp of the representative frame, in milliseconds.
    pub fn start_timestamp_ms(&self) -> (t: u64)
        ensures
            t == self.representative_frame.timestamp_ms,
    {
        self.representative_frame.timestamp_ms
    }

    /// Span of the segment in source frames.
    pub fn duration_frames(&self) -> (d: usize)
        requires
            self.start_frame_idx <= self.end_frame_idx,
        ensures
            d == self.end_frame_idx - self.start_frame_idx,
    {
        self.end_frame_idx - self.start_frame_idx
    }
}

/// A semantic break at frame `i` of the open segment that started at `start`:
/// the similarity verdict is below threshold and the segment already holds at
/// least `min` frames (frames `start .. i`, that is `i - start` of them).
pub open spec fn spec_break_now(below_i: bool, min: int, start: int, i: int) -> bool {
    below_i && i - start >= min
}

/// Positions in `0 .. i` at which a segment starts, given the per-frame
/// verdicts `below` and the minimum segment length `min`. Frame 0 always
/// starts the first segment; frame `j >= 1` starts a segment iff a break is
/// declared there.
pub open spec fn spec_starts(below: Seq<bool>, min: int, i: nat) -> Seq<int>
    decreases i,
{
    if i <= 1 {
        seq![0int]
    } else {
        let prev = spec_starts(below, min, (i - 1) as nat);
        if spec_break_now(below[i - 1], min, prev.last(), i - 1) {
            prev.push(i - 1)
        } else {
            prev
        }
    }
}

/// Position of the last member of segment `k`: one before the next segment's
/// start, or the end of the input for the final segment.
pub open spec fn spec_end_pos(starts: Seq<int>, k: int, n: int) -> int {
    if k + 1 < starts.len() {
        starts[k + 1] - 1
    } else {
        n - 1
    }
}

/// The segment record for segment number `k` spanning positions `a ..= b`.
/// The representative is the member at the floor midpoint.
pub open spec fn spec_segment_fields(
    frames: Seq<EmbeddedFrame>,
    k: int,
    a: int,
    b: int,
) -> SemanticSegment {
    SemanticSegment {
        index: k as usize,
        start_frame_idx: frames[a].frame_index,
        end_frame_idx: frames[b].frame_index,
        representative_frame: frames[a + (b - a + 1) / 2],
        frame_count: (b - a + 1) as usize,
        start_pos: a as usize,
        end_pos: b as usize,
        representative_pos: (a + (b - a + 1) / 2) as usize,
    }
}

/// The full output of the engine on `frames` under verdicts `below` and
/// minimum segment length `min`. Empty input yields an empty list; otherwise
/// the segment starts are [`spec_starts`] and each segment runs to just
/// before the next start.
pub open spec fn spec_segments(
    frames: Seq<EmbeddedFrame>,
    below: Seq<bool>,
    min: int,
) -> Seq<SemanticSegment> {
    if frames.len() == 0 {
        Seq::empty()
    } else {
        let starts = spec_starts(below, min, frames.len());
        Seq::new(
            starts.len(),
            |k: int| spec_segment_fields(frames, k, starts[k], spec_end_pos(starts, k, frames.len() as int)),
        )
    }
}

/// The segment starts are well formed: the first is 0, they strictly
/// increase, and all lie inside the input.
pub proof fn lemma_starts_wf(below: Seq<bool>, min: int, i: nat)
    requires
        i >= 1,
    ensures
        ({
            let starts = spec_starts(below, min, i);
            &&& 1 <= starts.len() <= i
            &&& starts[0] == 0
            &&& starts.last() < i
            &&& forall|k: int| 0 <= k < starts.len() ==> k <= #[trigger] starts[k] < i
            &&& forall|k: int|
                0 <= k < starts.len() - 1 ==> #[trigger] starts[k] < starts[k + 1]
        }),
    decreases i,
{
    if i > 1 {
        lemma_starts_wf(below, min, (i - 1) as nat);
    }
}

/// Running total of `frame_count` over a list of segments.
pub open spec fn spec_total_frame_count(segs: Seq<SemanticSegment>) -> int
    decreases segs.len(),
{
    if segs.len() == 0 {
        0
    } else {
        spec_total_frame_count(segs.drop_last()) + segs.last().frame_count
    }
}

proof fn lemma_contiguous_sum(segs: Seq<SemanticSegment>)
    requires
        forall|k: int|
            0 <= k < segs.len() ==> (#[trigger] segs[k]).start_pos <= segs[k].end_pos,
        forall|k: int|
            0 <= k < segs.len() ==> (#[trigger] segs[k]).frame_count == segs[k].end_pos
                - segs[k].start_pos + 1,
        forall|k: int|
            0 <= k < segs.len() - 1 ==> (#[trigger] segs[k]).end_pos + 1 == segs[k + 1].start_pos,
    ensures
        segs.len() >= 1 ==> spec_total_frame_count(segs) == segs.last().end_pos
            - segs[0].start_pos + 1,
        segs.len() == 0 ==> spec_total_frame_count(segs) == 0,
    decreases segs.len(),
{
    if segs.len() >= 1 {
        lemma_contiguous_sum(segs.drop_last());
    }
}

/// Law: for every non-empty input, the output segments are contiguous,
/// index-increasing, and exactly partition the input: the first starts at
/// position 0, each next segment starts right after the previous one ends,
/// the last ends at the last input position, and the frame counts sum to the
/// input length.
pub proof fn lemma_segments_partition(frames: Seq<EmbeddedFrame>, below: Seq<bool>, min: int)
    requires
        below.len() == frames.len(),
        1 <= frames.len() <= usize::MAX,
    ensures
        ({
            let segs = spec_segments(frames, below, min);
            &&& segs.len() >= 1
            &&& segs[0].start_pos == 0
            &&& segs[segs.len() - 1].end_pos == frames.len() - 1
            &&& forall|k: int| 0 <= k < segs.len() ==> (#[trigger] segs[k]).index == k
            &&& forall|k: int|
                0 <= k < segs.len() ==> (#[trigger] segs[k]).start_pos <= segs[k].end_pos
                    < frames.len()
            &&& forall|k: int|
                0 <= k < segs.len() ==> (#[trigger] segs[k]).frame_count == segs[k].end_pos
                    - segs[k].start_pos + 1
            &&& forall|k: int|
                0 <= k < segs.len() - 1 ==> (#[trigger] segs[k]).end_pos + 1 == segs[k
                    + 1].start_pos
            &&& spec_total_frame_count(segs) == frames.len()
        }),
{
    let n = frames.len() as int;
    let starts = spec_starts(below, min, frames.len());
    let segs = spec_segments(frames, below, min);
    lemma_starts_wf(below, min, frames.len());
    assert forall|k: int| 0 <= k < segs.len() implies (#[trigger] segs[k]).start_pos <= segs[k].end_pos
        < frames.len() by {
        if k + 1 < starts.len() {
            assert(starts[k] < starts[k + 1]);
        }
    }
    lemma_contiguous_sum(segs);
}

/// Law: an empty input yields an empty segment list.
pub proof fn lemma_empty_input(frames: Seq<EmbeddedFrame>, below: Seq<bool>, min: int)
    requires
        frames.len() == 0,
    ensures
        spec_segments(frames, below, min).len() == 0,
{
}

/// Law: a single-frame input yields exactly one segment of length 1 with
/// that frame as representative.
pub proof fn lemma_single_frame(frames: Seq<EmbeddedFrame>, below: Seq<bool>, min: int)
    requires
        frames.len() == 1,
        below.len() == 1,
    ensures
        ({
            let segs = spec_segments(frames, below, min);
            &&& segs.len() == 1
            &&& segs[0].frame_count == 1
            &&& segs[0].start_pos == 0 && segs[0].end_pos == 0
            &&& segs[0].representative_pos == 0
            &&& segs[0].representative_frame == frames[0]
        }),
{
}

/// Law: representative selection is deterministic: every segment's
/// representative sits at the floor midpoint of its range, inside the range.
/// Together with the exact functional contract of
/// [`SemanticSegmenter::segment`], re-running segmentation on identical input
/// yields identical representatives.
pub proof fn lemma_representative_selection(frames: Seq<EmbeddedFrame>, below: Seq<bool>, min: int)
    requires
        below.len() == frames.len(),
        1 <= frames.len() <= usize::MAX,
    ensures
        ({
            let segs = spec_segments(frames, below, min);
            forall|k: int|
                0 <= k < segs.len() ==> {
                    &&& (#[trigger] segs[k]).representative_pos == segs[k].start_pos + (segs[k].end_pos
                        - segs[k].start_pos + 1) / 2
                    &&& segs[k].start_pos <= segs[k].representative_pos <= segs[k].end_pos
                    &&& segs[k].representative_frame == frames[segs[k].representative_pos as int]
                }
        }),
{
    let starts = spec_starts(below, min, frames.len());
    let segs = spec_segments(frames, below, min);
    lemma_starts_wf(below, min, frames.len());
    assert forall|k: int| 0 <= k < segs.len() implies {
        &&& (#[trigger] segs[k]).representative_pos == segs[k].start_pos + (segs[k].end_pos
            - segs[k].start_pos + 1) / 2
        &&& segs[k].start_pos <= segs[k].representative_pos <= segs[k].end_pos
        &&& segs[k].representative_frame == frames[segs[k].representative_pos as int]
    } by {
        if k + 1 < starts.len() {
            assert(starts[k] < starts[k + 1]);
        }
    }
}

proof fn lemma_break_at_start(below: Seq<bool>, min: int, i: nat, k: int)
    requires
        i >= 1,
        1 <= k < spec_starts(below, min, i).len(),
    ensures
        ({
            let starts = spec_starts(below, min, i);
            below[starts[k]] && starts[k] - starts[k - 1] >= min
        }),
    decreases i,
{
    lemma_starts_wf(below, min, i);
    if i > 1 {
        let prev = spec_starts(below, min, (i - 1) as nat);
        lemma_starts_wf(below, min, (i - 1) as nat);
        if k < prev.len() {
            lemma_break_at_start(below, min, (i - 1) as nat, k);
        }
    }
}

proof fn lemma_no_break_inside(below: Seq<bool>, min: int, i: nat, k: int, j: int)
    requires
        i >= 1,
        0 <= k < spec_starts(below, min, i).len(),
        spec_starts(below, min, i)[k] < j <= spec_end_pos(spec_starts(below, min, i), k, i as int),
    ensures
        !(below[j] && j - spec_starts(below, min, i)[k] >= min),
    decreases i,
{
    let starts = spec_starts(below, min, i);
    lemma_starts_wf(below, min, i);
    if i > 1 {
        let prev = spec_starts(below, min, (i - 1) as nat);
        lemma_starts_wf(below, min, (i - 1) as nat);
        let broke = spec_break_now(below[i - 1], min, prev.last(), i - 1);
        if k < prev.len() {
            if j <= spec_end_pos(prev, k, i - 1) {
                lemma_no_break_inside(below, min, (i - 1) as nat, k, j);
            } else {
                assert(k == prev.len() - 1 && j == i - 1);
                assert(!broke);
                assert(starts[k] == prev.last());
            }
        } else {
            assert(broke && k == prev.len());
            assert(starts[k] == i - 1 && spec_end_pos(starts, k, i as int) == i - 1);
        }
    }
}

/// Segment `k` (for `k >= 1`) begins at a frame whose similarity verdict
/// was below threshold at a moment when the previous segment had already
/// reached the minimum length.
pub open spec fn spec_break_honored_at(
    frames: Seq<EmbeddedFrame>,
    below: Seq<bool>,
    min: int,
    k: int,
) -> bool {
    let segs = spec_segments(frames, below, min);
    below[segs[k].start_pos as int] && segs[k].start_pos - segs[k - 1].start_pos >= min
}

/// If `j` lies strictly inside segment `k`, frame `j` did not meet both
/// break conditions against the segment's start.
pub open spec fn spec_no_break_inside_at(
    frames: Seq<EmbeddedFrame>,
    below: Seq<bool>,
    min: int,
    k: int,
    j: int,
) -> bool {
    let segs = spec_segments(frames, below, min);
    segs[k].start_pos < j <= segs[k].end_pos ==> !(below[j] && j - segs[k].start_pos >= min)
}

/// Law: a segment boundary stands exactly where the break rule fires. Each
/// segment after the first begins at a frame whose similarity verdict was
/// below threshold at a moment when the previous segment had already
/// reached the minimum length; and no frame strictly inside a segment met
/// both conditions against its segment's start.
pub proof fn lemma_break_rule(frames: Seq<EmbeddedFrame>, below: Seq<bool>, min: int)
    requires
        below.len() == frames.len(),
        1 <= frames.len() <= usize::MAX,
    ensures
        forall|k: int|
            1 <= k < spec_segments(frames, below, min).len() ==> #[trigger] spec_break_honored_at(
                frames,
                below,
                min,
                k,
            ),
        forall|k: int, j: int|
            0 <= k < spec_segments(frames, below, min).len()
                ==> #[trigger] spec_no_break_inside_at(frames, below, min, k, j),
{
    let n = frames.len();
    lemma_starts_wf(below, min, n);
    assert forall|k: int|
        1 <= k < spec_segments(frames, below, min).len() implies #[trigger] spec_break_honored_at(
            frames,
            below,
            min,
            k,
        ) by {
        let starts = spec_starts(below, min, n);
        let segs = spec_segments(frames, below, min);
        lemma_break_at_start(below, min, n, k);
        assert(segs[k].start_pos == starts[k]);
        assert(segs[k - 1].start_pos == starts[k - 1]);
    }
    assert forall|k: int, j: int|
        0 <= k < spec_segments(frames, below, min).len() implies #[trigger] spec_no_break_inside_at(
            frames,
            below,
            min,
            k,
            j,
        ) by {
        let starts = spec_starts(below, min, n);
        let segs = spec_segments(frames, below, min);
        assert(segs[k].start_pos == starts[k]);
        assert(segs[k].end_pos == spec_end_pos(starts, k, n as int));
        if segs[k].start_pos < j <= segs[k].end_pos {
            lemma_no_break_inside(below, min, n, k, j);
        }
    }
}

proof fn lemma_starts_single_until(below: Seq<bool>, min: int, i: nat)
    requires
        1 <= i <= min,
    ensures
        spec_starts(below, min, i) =~= seq![0int],
    decreases i,
{
    if i > 1 {
        lemma_starts_single_until(below, min, (i - 1) as nat);
    }
}

proof fn lemma_starts_len_monotone(below: Seq<bool>, min: int, i1: nat, i2: nat)
    requires
        1 <= i1 <= i2,
    ensures
        spec_starts(below, min, i1).len() <= spec_starts(below, min, i2).len(),
    decreases i2,
{
    if i1 < i2 {
        lemma_starts_len_monotone(below, min, i1, (i2 - 1) as nat);
    }
}

/// Law: a below-threshold verdict at the position where the first segment
/// reaches the minimum length splits the input: more than one segment comes
/// out. This is the structural half of the drift scenario: any input whose
/// verdicts drop below threshold once the minimum length has passed yields
/// several segments, with indices and boundaries as
/// [`lemma_segments_partition`] states.
pub proof fn lemma_break_splits(frames: Seq<EmbeddedFrame>, below: Seq<bool>, min: int)
    requires
        below.len() == frames.len(),
        1 <= min < frames.len(),
        below[min],
    ensures
        spec_segments(frames, below, min).len() >= 2,
{
    let n = frames.len();
    lemma_starts_single_until(below, min, min as nat);
    assert(spec_starts(below, min, (min + 1) as nat).len() == 2);
    lemma_starts_len_monotone(below, min, (min + 1) as nat, n);
}

proof fn lemma_starts_pairwise(below: Seq<bool>, min: int, i: nat, k1: int, k2: int)
    requires
        i >= 1,
        0 <= k1 <= k2 < spec_starts(below, min, i).len(),
    ensures
        spec_starts(below, min, i)[k1] <= spec_starts(below, min, i)[k2],
    decreases k2 - k1,
{
    lemma_starts_wf(below, min, i);
    if k1 < k2 {
        lemma_starts_pairwise(below, min, i, k1, k2 - 1);
    }
}

/// Law: when the input's source frame indices are non-decreasing with
/// position — as the sampler produces them — the segments' start frame
/// indices are non-decreasing in segment order.
pub proof fn lemma_start_indices_monotone(frames: Seq<EmbeddedFrame>, below: Seq<bool>, min: int)
    requires
        below.len() == frames.len(),
        1 <= frames.len() <= usize::MAX,
        forall|a: int, b: int|
            0 <= a <= b < frames.len() ==> (#[trigger] frames[a]).frame_index <= (
            #[trigger] frames[b]).frame_index,
    ensures
        ({
            let segs = spec_segments(frames, below, min);
            forall|a: int, b: int|
                0 <= a <= b < segs.len() ==> (#[trigger] segs[a]).start_frame_idx <= (
                #[trigger] segs[b]).start_frame_idx
        }),
{
    let n = frames.len();
    let starts = spec_starts(below, min, n);
    let segs = spec_segments(frames, below, min);
    lemma_starts_wf(below, min, n);
    assert forall|a: int, b: int|
        0 <= a <= b < segs.len() implies (#[trigger] segs[a]).start_frame_idx <= (
    #[trigger] segs[b]).start_frame_idx by {
        lemma_starts_pairwise(below, min, n, a, b);
        assert(segs[a].start_frame_idx == frames[starts[a]].frame_index);
        assert(segs[b].start_frame_idx == frames[starts[b]].frame_index);
    }
}

/// The engine's running state while frames are consumed one at a time:
/// the open segment's first position, the position of the next frame to
/// consume, and how many segments have been closed.
#[derive(Debug, Clone, Copy, PartialEq, Eq, Structural)]
pub struct SegmenterState {
    /// Position of the first frame of the open segment.
    pub start_pos: usize,
    /// Position of the next frame to consume.
    pub pos: usize,
    /// Number of segments closed so far; also the next segment number.
    pub seg_count: usize,
}

/// Segment video frames by semantic similarity.
#[derive(Debug, Clone, Copy, PartialEq, Eq, Structural)]
pub struct SemanticSegmenter {
    /// Cosine similarity threshold in thousandths; the caller compares each
    /// frame's similarity against this value to form the `below` verdict.
    pub similarity_threshold_permille: u32,
    /// Minimum frames a segment must hold before a break is honored.
    pub min_segment_frames: usize,
}

impl SemanticSegmenter {
    /// Create a new segmenter with the given detail level's policy knobs.
    pub fn new(detail: DetailLevel) -> (s: Self)
        ensures
            s.similarity_threshold_permille == detail.spec_similarity_threshold_permille(),
            s.min_segment_frames == detail.spec_min_segment_frames(),
    {
        SemanticSegmenter {
            similarity_threshold_permille: detail.similarity_threshold_permille(),
            min_segment_frames: detail.min_segment_frames(),
        }
    }

    /// Build the record for segment `k` spanning positions `a ..= b`.
    fn close_segment(frames: &Vec<EmbeddedFrame>, k: usize, a: usize, b: usize) -> (seg:
        SemanticSegment)
        requires
            a <= b < frames@.len(),
        ensures
            seg == spec_segment_fields(frames@, k as int, a as int, b as int),
    {
        let n = frames.len();
        assert(b < n);
        let count = b - a + 1;
        let rep = a + count / 2;
        SemanticSegment {
            index: k,
            start_frame_idx: frames[a].frame_index,
            end_frame_idx: frames[b].frame_index,
            representative_frame: frames[rep],
            frame_count: count,
            start_pos: a,
            end_pos: b,
            representative_pos: rep,
        }
    }

    /// The state with which a pass over a non-empty sequence begins: the
    /// first frame opens segment 0 and the next frame to consume is frame 1.
    pub fn begin(&self) -> (st: SegmenterState)
        ensures
            st.start_pos == 0,
            st.pos == 1,
            st.seg_count == 0,
    {
        SegmenterState { start_pos: 0, pos: 1, seg_count: 0 }
    }

    /// Consume the frame at `st.pos` under the similarity verdict `below`
    /// (true iff the frame's cosine similarity to the open segment's anchor
    /// is below the threshold). Declares a break iff `below` holds AND the
    /// open segment already has at least `min_segment_frames` members; on a
    /// break the open segment is closed and returned and a new segment opens
    /// at this frame. The caller resets its anchor to this frame's embedding
    /// exactly when a segment is returned, and otherwise folds the embedding
    /// into the anchor by exponential moving average.
    pub fn step(
        &self,
        frames: &Vec<EmbeddedFrame>,
        st: &mut SegmenterState,
        below: bool,
    ) -> (closed: Option<SemanticSegment>)
        requires
            old(st).start_pos < old(st).pos < frames@.len(),
            old(st).seg_count <= old(st).start_pos,
        ensures
            final(st).pos == old(st).pos + 1,
            spec_break_now(below, self.min_segment_frames as int, old(st).start_pos as int, old(st).pos as int)
                ==> {
                &&& closed == Some(
                    spec_segment_fields(
                        frames@,
                        old(st).seg_count as int,
                        old(st).start_pos as int,
                        old(st).pos - 1,
                    ),
                )
                &&& final(st).start_pos == old(st).pos
                &&& final(st).seg_count == old(st).seg_count + 1
            },
            !spec_break_now(below, self.min_segment_frames as int, old(st).start_pos as int, old(st).pos as int)
                ==> {
                &&& closed is None
                &&& final(st).start_pos == old(st).start_pos
                &&& final(st).seg_count == old(st).seg_count
            },
            final(st).start_pos < final(st).pos,
            final(st).seg_count <= final(st).start_pos,
    {
        let n = frames.len();
        assert(st.pos < n);
        let is_break = below && st.pos - st.start_pos >= self.min_segment_frames;
        if is_break {
            let seg = Self::close_segment(frames, st.seg_count, st.start_pos, st.pos - 1);
            st.start_pos = st.pos;
            st.pos = st.pos + 1;
            st.seg_count = st.seg_count + 1;
            Some(seg)
        } else {
            st.pos = st.pos + 1;
            None
        }
    }

    /// Close the still-open segment after the last frame was consumed. The
    /// open segment is non-empty by construction, so there is never a
    /// dangling partial segment.
    pub fn finish(&self, frames: &Vec<EmbeddedFrame>, st: SegmenterState) -> (seg: SemanticSegment)
        requires
            st.start_pos < st.pos,
            st.pos == frames@.len(),
        ensures
            seg == spec_segment_fields(
                frames@,
                st.seg_count as int,
                st.start_pos as int,
                frames@.len() - 1,
            ),
    {
        Self::close_segment(frames, st.seg_count, st.start_pos, frames.len() - 1)
    }

    /// Segment frames into semantically coherent groups, given the per-frame
    /// similarity verdicts (`below[i]` is the verdict for frame `i`; the
    /// verdict for frame 0 is never read). Returns exactly
    /// [`spec_segments`]: the same pass [`Self::step`] makes one frame at a
    /// time.
    pub fn segment(&self, frames: &Vec<EmbeddedFrame>, below: &Vec<bool>) -> (segments: Vec<
        SemanticSegment>)
        requires
            below@.len() == frames@.len(),
        ensures
            segments@ == spec_segments(frames@, below@, self.min_segment_frames as int),
    {
        let n = frames.len();
        let ghost ming: int = self.min_segment_frames as int;
        let mut segments: Vec<SemanticSegment> = Vec::new();
        if n == 0 {
            assert(segments@ =~= spec_segments(frames@, below@, ming));
            return segments;
        }
        let mut st = self.begin();
        while st.pos < n
            invariant
                n == frames@.len(),
                n == below@.len(),
                1 <= st.pos <= n,
                st.start_pos < st.pos,
                st.seg_count <= st.start_pos,
                ming == self.min_segment_frames as int,
                st.seg_count + 1 == spec_starts(below@, ming, st.pos as nat).len(),
                st.start_pos == spec_starts(below@, ming, st.pos as nat).last(),
                segments@.len() == st.seg_count,
                forall|k: int|
                    0 <= k < segments@.len() ==> #[trigger] segments@[k] == spec_segment_fields(
                        frames@,
                        k,
                        spec_starts(below@, ming, st.pos as nat)[k],
                        spec_starts(below@, ming, st.pos as nat)[k + 1] - 1,
                    ),
            decreases n - st.pos,
        {
            let ghost old_starts = spec_starts(below@, ming, st.pos as nat);
            let ghost old_pos = st.pos as int;
            let b = below[st.pos];
            let closed = self.step(frames, &mut st, b);
            proof {
                assert(spec_starts(below@, ming, st.pos as nat) == if spec_break_now(
                    below@[old_pos],
                    ming,
                    old_starts.last(),
                    old_pos,
                ) {
                    old_starts.push(old_pos)
                } else {
                    old_starts
                });
            }
            if let Some(seg) = closed {
                segments.push(seg);
            }
        }
        let last = self.finish(frames, st);
        segments.push(last);
        proof {
            let starts = spec_starts(below@, ming, n as nat);
            lemma_starts_wf(below@, ming, n as nat);
            assert(segments@ =~= spec_segments(frames@, below@, ming));
        }
        segments
    }
}

fn map_representatives(v: &Vec<SemanticSegment>) -> (reps: Vec<EmbeddedFrame>)
    ensures
        reps@.len() == v@.len(),
        forall|k: int| 0 <= k < v@.len() ==> #[trigger] reps@[k] == v@[k].representative_frame,
{
    let n = v.len();
    let mut reps: Vec<EmbeddedFrame> = Vec::new();
    let mut i: usize = 0;
    while i < n
        invariant
            i <= n,
            n == v@.len(),
            reps@.len() == i,
            forall|k: int| 0 <= k < i ==> #[trigger] reps@[k] == v@[k].representative_frame,
        decreases n - i,
    {
        reps.push(v[i].representative_frame);
        i = i + 1;
    }
    reps
}

/// The selection `reps` is the representatives of `segments` taken in
/// ascending segment-index order: some reordering `w` of the segments,
/// sorted by index, contributes its representatives one by one.
pub open spec fn spec_selection_from(
    reps: Seq<EmbeddedFrame>,
    segments: Seq<SemanticSegment>,
    w: Seq<SemanticSegment>,
) -> bool {
    &&& w.to_multiset() == segments.to_multiset()
    &&& w.len() == segments.len()
    &&& forall|a: int, b: int|
        0 <= a < b < w.len() ==> (#[trigger] w[a]).index <= (#[trigger] w[b]).index
    &&& reps.len() == w.len()
    &&& forall|j: int| 0 <= j < w.len() ==> #[trigger] reps[j] == w[j].representative_frame
}

/// Select representative frames from segments in deterministic order:
/// ascending segment index, one representative per segment. When the
/// segment indices already equal their positions — as the engine's output
/// always has them — the selection is exactly the representatives in place.
pub fn deterministic_frame_selection(segments: &Vec<SemanticSegment>) -> (reps: Vec<EmbeddedFrame>)
    ensures
        reps@.len() == segments@.len(),
        (forall|k: int| 0 <= k < segments@.len() ==> (#[trigger] segments@[k]).index == k)
            ==> (forall|k: int|
            0 <= k < segments@.len() ==> #[trigger] reps@[k]
                == segments@[k].representative_frame),
        exists|w: Seq<SemanticSegment>| #[trigger] spec_selection_from(reps@, segments@, w),
{
    let n = segments.len();
    let mut canonical = true;
    let mut i: usize = 0;
    while i < n
        invariant
            i <= n,
            n == segments@.len(),
            canonical <==> (forall|k: int| 0 <= k < i ==> (#[trigger] segments@[k]).index == k),
        decreases n - i,
    {
        if segments[i].index != i {
            canonical = false;
        }
        i = i + 1;
    }
    if canonical {
        let reps = map_representatives(segments);
        proof {
            assert(spec_selection_from(reps@, segments@, segments@));
        }
        reps
    } else {
        let mut work: Vec<SemanticSegment> = Vec::new();
        proof {
            assert(work@ =~= segments@.subrange(0, 0));
        }
        let mut j: usize = 0;
        while j < n
            invariant
                j <= n,
                n == segments@.len(),
                work@.len() == j,
                work@.to_multiset() == segments@.subrange(0, j as int).to_multiset(),
                forall|a: int, b: int|
                    0 <= a < b < work@.len() ==> (#[trigger] work@[a]).index <= (
                    #[trigger] work@[b]).index,
            decreases n - j,
        {
            let seg = segments[j];
            let mut p: usize = 0;
            while p < j && work[p].index <= seg.index
                invariant
                    p <= j,
                    j == work@.len(),
                    forall|q: int| 0 <= q < p ==> (#[trigger] work@[q]).index <= seg.index,
                decreases j - p,
            {
                p = p + 1;
            }
            let ghost wpre = work@;
            work.insert(p, seg);
            proof {
                to_multiset_insert(wpre, p as int, seg);
                to_multiset_build(segments@.subrange(0, j as int), seg);
                assert(segments@.subrange(0, j as int + 1) =~= segments@.subrange(
                    0,
                    j as int,
                ).push(seg));
                assert(work@.to_multiset() == segments@.subrange(0, j as int + 1).to_multiset());
            }
            j = j + 1;
        }
        let reps = map_representatives(&work);
        proof {
            assert(segments@.subrange(0, n as int) =~= segments@);
            assert(spec_selection_from(reps@, segments@, work@));
        }
        reps
    }
}

} // verus!
