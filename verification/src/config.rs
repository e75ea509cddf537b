//! Policy tables: the two coarse user controls and the numeric knobs each one
//! selects. All values are fixed constants for a run.

use vstd::prelude::*;
use vstd::string::*;

verus! {

/// Detail level controlling extraction granularity: how many segments (and so
/// how many stills) a run produces.
#[derive(Debug, Clone, Copy, PartialEq, Eq, Structural)]
pub enum DetailLevel {
    /// Minimal: only major scene changes.
    Key,
    /// Moderate: representative frames.
    Summary,
    /// Comprehensive: all detected semantic changes.
    All,
}

impl DetailLevel {
    /// Cosine similarity threshold for this detail level, in thousandths.
    /// A frame opens a new segment when its similarity to the anchor falls
    /// below this value. Lower threshold = fewer, larger segments.
    pub open spec fn spec_similarity_threshold_permille(self) -> u32 {
        match self {
            DetailLevel::Key => 920,
            DetailLevel::Summary => 850,
            DetailLevel::All => 750,
        }
    }

    /// Cosine similarity threshold in thousandths (0.92, 0.85 or 0.75).
    pub fn similarity_threshold_permille(self) -> (t: u32)
        ensures
            t == self.spec_similarity_threshold_permille(),
    {
        match self {
            DetailLevel::Key => 920,
            DetailLevel::Summary => 850,
            DetailLevel::All => 750,
        }
    }

    pub open spec fn spec_min_segment_frames(self) -> usize {
        match self {
            DetailLevel::Key => 90,
            DetailLevel::Summary => 45,
            DetailLevel::All => 15,
        }
    }

    /// Minimum frames a segment must accumulate before a semantic break is
    /// honored, to avoid over-extraction from short-lived changes.
    pub fn min_segment_frames(self) -> (n: usize)
        ensures
            n == self.spec_min_segment_frames(),
    {
        match self {
            DetailLevel::Key => 90,
            DetailLevel::Summary => 45,
            DetailLevel::All => 15,
        }
    }
}

impl DetailLevel {
    pub open spec fn spec_name(self) -> Seq<char> {
        match self {
            DetailLevel::Key => "key"@,
            DetailLevel::Summary => "summary"@,
            DetailLevel::All => "all"@,
        }
    }

    /// The lower-case name of this level, as it appears in the manifest.
    pub fn name(self) -> (s: String)
        ensures
            s@ == self.spec_name(),
    {
        match self {
            DetailLevel::Key => String::from_str("key"),
            DetailLevel::Summary => String::from_str("summary"),
            DetailLevel::All => String::from_str("all"),
        }
    }
}

impl Default for DetailLevel {
    fn default() -> (d: Self)
        ensures
            d == DetailLevel::Summary,
    {
        DetailLevel::Summary
    }
}

/// Quality preset: the speed/fidelity tradeoff of sampling and embedding.
#[derive(Debug, Clone, Copy, PartialEq, Eq, Structural)]
pub enum QualityPreset {
    /// Quick processing, lower fidelity.
    Fast,
    /// Good balance.
    Balanced,
    /// Highest quality, slower.
    Best,
}

impl QualityPreset {
    pub open spec fn spec_frame_sample_rate(self) -> usize {
        match self {
            QualityPreset::Fast => 15,
            QualityPreset::Balanced => 5,
            QualityPreset::Best => 1,
        }
    }

    /// Sample every Nth source frame for embedding computation.
    pub fn frame_sample_rate(self) -> (n: usize)
        ensures
            n == self.spec_frame_sample_rate(),
    {
        match self {
            QualityPreset::Fast => 15,
            QualityPreset::Balanced => 5,
            QualityPreset::Best => 1,
        }
    }

    pub open spec fn spec_embedding_batch_size(self) -> usize {
        match self {
            QualityPreset::Fast => 64,
            QualityPreset::Balanced => 32,
            QualityPreset::Best => 16,
        }
    }

    /// Batch size for embedding computation. Batching is for throughput only
    /// and never changes the per-frame numeric result.
    pub fn embedding_batch_size(self) -> (n: usize)
        ensures
            n == self.spec_embedding_batch_size(),
    {
        match self {
            QualityPreset::Fast => 64,
            QualityPreset::Balanced => 32,
            QualityPreset::Best => 16,
        }
    }

    pub open spec fn spec_image_resize_percent(self) -> u32 {
        match self {
            QualityPreset::Fast => 50,
            QualityPreset::Balanced => 75,
            QualityPreset::Best => 100,
        }
    }

    /// Percentage to downscale frames before embedding (100 = full size).
    pub fn image_resize_percent(self) -> (p: u32)
        ensures
            p == self.spec_image_resize_percent(),
            1 <= p <= 100,
    {
        match self {
            QualityPreset::Fast => 50,
            QualityPreset::Balanced => 75,
            QualityPreset::Best => 100,
        }
    }
}

impl QualityPreset {
    pub open spec fn spec_name(self) -> Seq<char> {
        match self {
            QualityPreset::Fast => "fast"@,
            QualityPreset::Balanced => "balanced"@,
            QualityPreset::Best => "best"@,
        }
    }

    /// The lower-case name of this preset, as it appears in the manifest.
    pub fn name(self) -> (s: String)
        ensures
            s@ == self.spec_name(),
    {
        match self {
            QualityPreset::Fast => String::from_str("fast"),
            QualityPreset::Balanced => String::from_str("balanced"),
            QualityPreset::Best => String::from_str("best"),
        }
    }
}

impl Default for QualityPreset {
    fn default() -> (q: Self)
        ensures
            q == QualityPreset::Balanced,
    {
        QualityPreset::Balanced
    }
}

} // verus!
