//! Tests of timestamp formatting, output filenames, manifest records and
//! JPEG encoding.

use scenesplit::embeddings::EmbeddedFrame;
use scenesplit::error::Error;
use scenesplit::output::build_frame_metadata_list;
use scenesplit::output::encode_frame;
use scenesplit::output::format_timestamp;
use scenesplit::output::frame_filename;
use scenesplit::output::FrameMetadata;
use scenesplit::output::OutputMetadata;
use scenesplit::output::OutputWriter;
use scenesplit::segmentation::SemanticSegment;
use scenesplit::video::Frame;
use scenesplit::video::VideoMetadata;

fn sample_segment() -> SemanticSegment {
    SemanticSegment {
        index: 2,
        start_frame_idx: 30,
        end_frame_idx: 59,
        representative_frame: EmbeddedFrame {
            frame_index: 45,
            timestamp_ms: 1500,
        },
        frame_count: 30,
        start_pos: 6,
        end_pos: 11,
        representative_pos: 9,
    }
}

#[test]
fn test_format_timestamp() {
    assert_eq!(format_timestamp(0), "00:00:00.000");
    assert_eq!(format_timestamp(61_500), "00:01:01.500");
    assert_eq!(format_timestamp(3_661_123), "01:01:01.123");
}

#[test]
fn test_format_timestamp_large_hours() {
    assert_eq!(format_timestamp(360_000_000), "100:00:00.000");
    assert_eq!(format_timestamp(59_999), "00:00:59.999");
}

#[test]
fn test_frame_filename() {
    assert_eq!(frame_filename(1), "0001.jpg");
    assert_eq!(frame_filename(123), "0123.jpg");
    assert_eq!(frame_filename(12345), "12345.jpg");
}

#[test]
fn test_frame_metadata_build() {
    let m = FrameMetadata::build(&sample_segment(), 3);
    assert_eq!(m.filename, "0003.jpg");
    assert_eq!(m.segment_index, 2);
    assert_eq!(m.frame_index, 45);
    assert_eq!(m.timestamp_ms, 1500);
    assert_eq!(m.timestamp_formatted, "00:00:01.500");
}

#[test]
fn test_frame_metadata_list_numbering() {
    let mut seg0 = sample_segment();
    seg0.index = 0;
    let mut seg1 = sample_segment();
    seg1.index = 1;
    seg1.representative_frame.frame_index = 90;
    let ms = build_frame_metadata_list(&vec![seg0, seg1]);
    assert_eq!(ms.len(), 2);
    assert_eq!(ms[0].filename, "0001.jpg");
    assert_eq!(ms[0].segment_index, 0);
    assert_eq!(ms[1].filename, "0002.jpg");
    assert_eq!(ms[1].segment_index, 1);
    assert_eq!(ms[1].frame_index, 90);
}

#[test]
fn test_output_writer_paths() {
    let w = OutputWriter::new(None);
    assert_eq!(w.output_dir(), "scenesplit_output");
    assert_eq!(w.frame_path(7), "scenesplit_output/0007.jpg");
    assert_eq!(w.metadata_path(), "scenesplit_output/metadata.json");
    let custom = OutputWriter::new(Some(String::from("stills")));
    assert_eq!(custom.output_dir(), "stills");
    assert_eq!(custom.metadata_path(), "stills/metadata.json");
}

#[test]
fn test_output_metadata_build() {
    let video = VideoMetadata {
        path: String::from("clip.mp4"),
        width: 1920,
        height: 1080,
        fps_millis: 30_000,
        frame_count: 300,
        duration_ms: 10_000,
        codec: String::from("avc1"),
    };
    let records = vec![FrameMetadata::build(&sample_segment(), 1)];
    let m = OutputMetadata::build(&video, records, String::from("summary"), String::from("balanced"));
    assert_eq!(m.source_video, "clip.mp4");
    assert_eq!(m.video_duration_ms, 10_000);
    assert_eq!(m.video_frame_count, 300);
    assert_eq!(m.extracted_frames, 1);
    assert_eq!(m.detail_level, "summary");
    assert_eq!(m.quality_preset, "balanced");
    assert_eq!(m.frames.len(), 1);
}

#[test]
fn test_encode_frame_produces_jpeg() {
    let frame = Frame {
        index: 0,
        timestamp_ms: 0,
        data: vec![128u8; 4 * 4 * 3],
        width: 4,
        height: 4,
    };
    let bytes = encode_frame(&frame, 1).unwrap();
    assert!(bytes.len() > 2);
    assert_eq!(bytes[0], 0xff);
    assert_eq!(bytes[1], 0xd8);
    assert_ne!(bytes, frame.data);
}

#[test]
fn test_encode_frame_rejects_bad_buffer() {
    let frame = Frame {
        index: 0,
        timestamp_ms: 0,
        data: vec![128u8; 10],
        width: 4,
        height: 4,
    };
    match encode_frame(&frame, 7) {
        Err(Error::Output(m)) => {
            assert_eq!(m, "Failed to create image buffer for frame 7");
        }
        other => panic!("expected an output error, got {:?}", other),
    }
}
