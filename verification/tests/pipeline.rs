//! Tests of the policy tables, error messages, stage bookkeeping, model
//! cache paths and the run summary.

use scenesplit::config::DetailLevel;
use scenesplit::config::QualityPreset;
use scenesplit::error::Error;
use scenesplit::model::model_cache_path;
use scenesplit::model::model_filename;
use scenesplit::model::model_path_in;
use scenesplit::processor::ProcessingResult;
use scenesplit::processor::ProgressObserver;
use scenesplit::processor::SceneSplitProcessor;
use scenesplit::processor::Stage;
use scenesplit::processor::TOTAL_STAGES;
use scenesplit::video::VideoMetadata;

#[test]
fn test_detail_policy_values() {
    assert_eq!(DetailLevel::Key.similarity_threshold_permille(), 920);
    assert_eq!(DetailLevel::Summary.similarity_threshold_permille(), 850);
    assert_eq!(DetailLevel::All.similarity_threshold_permille(), 750);
    assert_eq!(DetailLevel::Key.min_segment_frames(), 90);
    assert_eq!(DetailLevel::Summary.min_segment_frames(), 45);
    assert_eq!(DetailLevel::All.min_segment_frames(), 15);
    assert_eq!(DetailLevel::default(), DetailLevel::Summary);
    assert_eq!(DetailLevel::Key.name(), "key");
    assert_eq!(DetailLevel::Summary.name(), "summary");
    assert_eq!(DetailLevel::All.name(), "all");
}

#[test]
fn test_quality_policy_values() {
    assert_eq!(QualityPreset::Fast.frame_sample_rate(), 15);
    assert_eq!(QualityPreset::Balanced.frame_sample_rate(), 5);
    assert_eq!(QualityPreset::Best.frame_sample_rate(), 1);
    assert_eq!(QualityPreset::Fast.embedding_batch_size(), 64);
    assert_eq!(QualityPreset::Balanced.embedding_batch_size(), 32);
    assert_eq!(QualityPreset::Best.embedding_batch_size(), 16);
    assert_eq!(QualityPreset::Fast.image_resize_percent(), 50);
    assert_eq!(QualityPreset::Balanced.image_resize_percent(), 75);
    assert_eq!(QualityPreset::Best.image_resize_percent(), 100);
    assert_eq!(QualityPreset::default(), QualityPreset::Balanced);
    assert_eq!(QualityPreset::Fast.name(), "fast");
    assert_eq!(QualityPreset::Balanced.name(), "balanced");
    assert_eq!(QualityPreset::Best.name(), "best");
}

#[test]
fn test_error_messages() {
    assert_eq!(
        Error::VideoNotFound(String::from("x.mp4")).message(),
        "Video file not found: x.mp4"
    );
    assert_eq!(
        Error::UnsupportedFormat {
            path: String::from("a.txt"),
            extension: String::from("txt"),
        }
        .message(),
        "Unsupported video format: 'txt'. Supported: mp4, avi, mov, mkv, webm, m4v, flv, wmv, mpeg, mpg"
    );
    assert_eq!(
        Error::VideoDecode {
            path: String::from("v.mp4"),
            reason: String::from("boom"),
        }
        .message(),
        "Failed to decode video 'v.mp4': boom"
    );
    assert_eq!(
        Error::VideoCapture(String::from("c")).message(),
        "Video capture error: c"
    );
    assert_eq!(
        Error::Embedding(String::from("e")).message(),
        "Embedding error: e"
    );
    assert_eq!(
        Error::ModelLoad(String::from("m")).message(),
        "Model load error: m"
    );
    assert_eq!(Error::Output(String::from("o")).message(), "Output error: o");
    assert_eq!(Error::Io(String::from("i")).message(), "IO error: i");
    assert_eq!(Error::OpenCV(String::from("cv")).message(), "OpenCV error: cv");
    assert_eq!(
        Error::Onnx(String::from("x")).message(),
        "ONNX Runtime error: x"
    );
}

#[test]
fn test_stage_names_and_ordinals() {
    assert_eq!(TOTAL_STAGES, 5);
    assert_eq!(Stage::LoadVideo.name(), "Loading video");
    assert_eq!(Stage::ExtractFrames.name(), "Extracting frames");
    assert_eq!(Stage::ComputeEmbeddings.name(), "Computing embeddings");
    assert_eq!(Stage::DetectChanges.name(), "Detecting semantic changes");
    assert_eq!(Stage::WriteOutput.name(), "Writing output");
    assert_eq!(Stage::Complete.name(), "Complete");
    assert_eq!(Stage::LoadVideo.ordinal(), 0);
    assert_eq!(Stage::ExtractFrames.ordinal(), 1);
    assert_eq!(Stage::ComputeEmbeddings.ordinal(), 2);
    assert_eq!(Stage::DetectChanges.ordinal(), 3);
    assert_eq!(Stage::WriteOutput.ordinal(), 4);
    assert_eq!(Stage::Complete.ordinal(), 5);
}

#[test]
fn test_model_paths() {
    assert_eq!(model_filename(), "resnet50-v2-7.onnx");
    assert_eq!(
        model_path_in("/home/user/.cache"),
        "/home/user/.cache/scenesplit/resnet50-v2-7.onnx"
    );
    if let Some(p) = model_cache_path() {
        assert!(p.ends_with("/scenesplit/resnet50-v2-7.onnx"));
    }
}

struct CountingObserver {
    calls: Vec<(String, usize, usize)>,
}

impl ProgressObserver for CountingObserver {
    fn on_progress(&mut self, stage: &str, current: usize, total: usize) {
        self.calls.push((stage.to_string(), current, total));
    }
}

#[test]
fn test_report_progress() {
    let mut obs = CountingObserver { calls: Vec::new() };
    let stage = Stage::LoadVideo.name();
    SceneSplitProcessor::report_progress(Some(&mut obs), &stage, Stage::LoadVideo.ordinal(), TOTAL_STAGES);
    SceneSplitProcessor::report_progress::<CountingObserver>(None, "ignored", 1, 5);
    assert_eq!(obs.calls.len(), 1);
    assert_eq!(obs.calls[0], (String::from("Loading video"), 0, 5));
}

#[test]
fn test_processor_new_and_result() {
    let p = SceneSplitProcessor::new(
        DetailLevel::All,
        QualityPreset::Best,
        Some(String::from("out")),
        String::from("/models/resnet50-v2-7.onnx"),
    );
    assert_eq!(p.detail, DetailLevel::All);
    assert_eq!(p.quality, QualityPreset::Best);
    assert_eq!(p.output_dir.as_deref(), Some("out"));
    assert_eq!(p.model_path, "/models/resnet50-v2-7.onnx");

    let video = VideoMetadata {
        path: String::from("clip.mp4"),
        width: 1280,
        height: 720,
        fps_millis: 25_000,
        frame_count: 250,
        duration_ms: 10_000,
        codec: String::from("avc1"),
    };
    let r = ProcessingResult::assemble(
        video,
        50,
        7,
        String::from("out"),
        String::from("out/metadata.json"),
    );
    assert_eq!(r.total_frames_processed, 50);
    assert_eq!(r.segments_detected, 7);
    assert_eq!(r.frames_extracted, 7);
    assert_eq!(r.output_dir, "out");
    assert_eq!(r.metadata_path, "out/metadata.json");
}
