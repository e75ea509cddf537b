//! Pipeline orchestration bookkeeping: the fixed stage sequence with its
//! progress milestones, the optional progress observer, and the run summary.
//! The stages run strictly in order with no overlap; on any stage's failure
//! the remaining stages are skipped and the failure propagates verbatim.
//! The caller performs the stages' outside work (decode, inference, writes)
//! and consults the types here for every decision that shapes the result.

use vstd::prelude::*;
use vstd::string::*;

use crate::config::DetailLevel;
use crate::config::QualityPreset;
use crate::video::VideoMetadata;

verus! {

/// Total stage count reported with every progress milestone: the five
/// pipeline stages, each with its own ordinal.
pub const TOTAL_STAGES: usize = 5;

/// The pipeline's milestones, in execution order.
#[derive(Debug, Clone, Copy, PartialEq, Eq, Structural)]
pub enum Stage {
    /// Open and validate the source.
    LoadVideo,
    /// Sample frames from the stream.
    ExtractFrames,
    /// Compute embeddings for the sampled frames, batched.
    ComputeEmbeddings,
    /// Segment the embedded sequence by semantic similarity.
    DetectChanges,
    /// Write the stills and the manifest.
    WriteOutput,
    /// The run finished.
    Complete,
}

impl Stage {
    pub open spec fn spec_name(self) -> Seq<char> {
        match self {
            Stage::LoadVideo => "Loading video"@,
            Stage::ExtractFrames => "Extracting frames"@,
            Stage::ComputeEmbeddings => "Computing embeddings"@,
            Stage::DetectChanges => "Detecting semantic changes"@,
            Stage::WriteOutput => "Writing output"@,
            Stage::Complete => "Complete"@,
        }
    }

    /// The milestone's display name.
    pub fn name(self) -> (s: String)
        ensures
            s@ == self.spec_name(),
    {
        match self {
            Stage::LoadVideo => String::from_str("Loading video"),
            Stage::ExtractFrames => String::from_str("Extracting frames"),
            Stage::ComputeEmbeddings => String::from_str("Computing embeddings"),
            Stage::DetectChanges => String::from_str("Detecting semantic changes"),
            Stage::WriteOutput => String::from_str("Writing output"),
            Stage::Complete => String::from_str("Complete"),
        }
    }

    pub open spec fn spec_ordinal(self) -> usize {
        match self {
            Stage::LoadVideo => 0,
            Stage::ExtractFrames => 1,
            Stage::ComputeEmbeddings => 2,
            Stage::DetectChanges => 3,
            Stage::WriteOutput => 4,
            Stage::Complete => 5,
        }
    }

    /// The ordinal reported with the milestone, out of [`TOTAL_STAGES`]:
    /// each pipeline stage has its own, and the closing milestone reports
    /// the full count.
    pub fn ordinal(self) -> (n: usize)
        ensures
            n == self.spec_ordinal(),
            n <= TOTAL_STAGES,
    {
        match self {
            Stage::LoadVideo => 0,
            Stage::ExtractFrames => 1,
            Stage::ComputeEmbeddings => 2,
            Stage::DetectChanges => 3,
            Stage::WriteOutput => 4,
            Stage::Complete => 5,
        }
    }
}

/// Observer of coarse progress milestones. Reporting is fire-and-forget:
/// no decision of the pipeline depends on it, so the method carries no
/// contract, and a no-op observer is valid.
pub trait ProgressObserver {
    fn on_progress(&mut self, stage: &str, current: usize, total: usize);
}

/// The observer that ignores every milestone.
pub struct NoProgress;

impl ProgressObserver for NoProgress {
    fn on_progress(&mut self, _stage: &str, _current: usize, _total: usize) {
    }
}

/// Result of video processing: the run summary assembled once at the end.
#[derive(Debug, Clone)]
pub struct ProcessingResult {
    pub video_metadata: VideoMetadata,
    pub total_frames_processed: usize,
    pub segments_detected: usize,
    pub frames_extracted: usize,
    pub output_dir: String,
    pub metadata_path: String,
}

impl ProcessingResult {
    /// Assemble the run summary; one still is extracted per detected
    /// segment.
    pub fn assemble(
        video_metadata: VideoMetadata,
        total_frames_processed: usize,
        segments_detected: usize,
        output_dir: String,
        metadata_path: String,
    ) -> (r: ProcessingResult)
        ensures
            r.video_metadata == video_metadata,
            r.total_frames_processed == total_frames_processed,
            r.segments_detected == segments_detected,
            r.frames_extracted == segments_detected,
            r.output_dir == output_dir,
            r.metadata_path == metadata_path,
    {
        ProcessingResult {
            video_metadata,
            total_frames_processed,
            segments_detected,
            frames_extracted: segments_detected,
            output_dir,
            metadata_path,
        }
    }
}

/// Main processing pipeline for semantic keyframe extraction: the run's
/// fixed configuration. The caller sequences the stages around it.
#[derive(Debug, Clone)]
pub struct SceneSplitProcessor {
    pub detail: DetailLevel,
    pub quality: QualityPreset,
    pub output_dir: Option<String>,
    pub model_path: String,
}

impl SceneSplitProcessor {
    /// Create a new processor with the run's configuration.
    pub fn new(
        detail: DetailLevel,
        quality: QualityPreset,
        output_dir: Option<String>,
        model_path: String,
    ) -> (p: SceneSplitProcessor)
        ensures
            p.detail == detail,
            p.quality == quality,
            p.output_dir == output_dir,
            p.model_path == model_path,
    {
        SceneSplitProcessor { detail, quality, output_dir, model_path }
    }

    /// Report a milestone to the observer, if one is attached. Never alters
    /// control flow.
    pub fn report_progress<O: ProgressObserver>(
        observer: Option<&mut O>,
        stage: &str,
        current: usize,
        total: usize,
    ) {
        if let Some(cb) = observer {
            cb.on_progress(stage, current, total);
        }
    }
}

} // verus!
