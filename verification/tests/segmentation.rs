//! Tests of the segmentation engine, driving it with real cosine-similarity
//! verdicts computed the way the pipeline computes them.

use scenesplit::config::DetailLevel;
use scenesplit::embeddings::EmbeddedFrame;
use scenesplit::segmentation::deterministic_frame_selection;
use scenesplit::segmentation::SemanticSegment;
use scenesplit::segmentation::SemanticSegmenter;

fn frame(i: usize) -> EmbeddedFrame {
    EmbeddedFrame {
        frame_index: i,
        timestamp_ms: (i as u64) * 1000 / 30,
    }
}

fn normalize(v: &[f32]) -> Vec<f32> {
    let norm: f32 = v.iter().map(|x| x * x).sum::<f32>().sqrt();
    if norm > 0.0 {
        v.iter().map(|x| x / norm).collect()
    } else {
        v.to_vec()
    }
}

fn cosine(a: &[f32], b: &[f32]) -> f32 {
    a.iter().zip(b.iter()).map(|(x, y)| x * y).sum()
}

fn update_anchor(anchor: &[f32], next: &[f32]) -> Vec<f32> {
    let alpha = 0.9f32;
    let blended: Vec<f32> = anchor
        .iter()
        .zip(next.iter())
        .map(|(a, b)| alpha * a + (1.0 - alpha) * b)
        .collect();
    normalize(&blended)
}

/// Run the full pass the way the pipeline does: one step per frame, with
/// the verdict from the evolving anchor, resetting the anchor on a break.
fn run_segmentation(
    segmenter: &SemanticSegmenter,
    frames: &Vec<EmbeddedFrame>,
    embeddings: &[Vec<f32>],
) -> Vec<SemanticSegment> {
    let n = frames.len();
    let mut segments = Vec::new();
    if n == 0 {
        return segments;
    }
    let threshold = segmenter.similarity_threshold_permille as f32 / 1000.0;
    let mut anchor = normalize(&embeddings[0]);
    let mut st = segmenter.begin();
    for i in 1..n {
        let emb = normalize(&embeddings[i]);
        let below = cosine(&anchor, &emb) < threshold;
        match segmenter.step(frames, &mut st, below) {
            Some(seg) => {
                segments.push(seg);
                anchor = emb;
            }
            None => {
                anchor = update_anchor(&anchor, &emb);
            }
        }
    }
    segments.push(segmenter.finish(frames, st));
    segments
}

#[test]
fn test_empty_input() {
    let segmenter = SemanticSegmenter::new(DetailLevel::Summary);
    let segments = segmenter.segment(&Vec::new(), &Vec::new());
    assert!(segments.is_empty());
}

#[test]
fn test_single_frame() {
    let frames = vec![frame(0)];
    let segmenter = SemanticSegmenter::new(DetailLevel::Summary);
    let segments = run_segmentation(&segmenter, &frames, &[vec![1.0, 0.0, 0.0]]);
    assert_eq!(segments.len(), 1);
    assert_eq!(segments[0].frame_count, 1);
    assert_eq!(segments[0].representative_frame, frames[0]);
}

fn drift_input() -> (Vec<EmbeddedFrame>, Vec<Vec<f32>>) {
    let frames: Vec<EmbeddedFrame> = (0..100).map(frame).collect();
    let embeddings: Vec<Vec<f32>> = (0..100)
        .map(|i| {
            let angle = (i as f32) * 0.1;
            vec![angle.cos(), angle.sin(), 0.0]
        })
        .collect();
    (frames, embeddings)
}

#[test]
fn test_segments_ordered() {
    let (frames, embeddings) = drift_input();
    let segmenter = SemanticSegmenter::new(DetailLevel::All);
    let segments = run_segmentation(&segmenter, &frames, &embeddings);
    for i in 1..segments.len() {
        assert!(segments[i].index > segments[i - 1].index);
    }
}

#[test]
fn test_synthetic_drift_multiple_segments() {
    let (frames, embeddings) = drift_input();
    let segmenter = SemanticSegmenter::new(DetailLevel::All);
    assert_eq!(segmenter.similarity_threshold_permille, 750);
    assert_eq!(segmenter.min_segment_frames, 15);
    let segments = run_segmentation(&segmenter, &frames, &embeddings);
    assert!(segments.len() > 1);
    for i in 0..segments.len() {
        assert_eq!(segments[i].index, i);
        if i > 0 {
            assert!(segments[i].start_frame_idx >= segments[i - 1].start_frame_idx);
        }
    }
}

#[test]
fn test_representative_deterministic() {
    let (frames, embeddings) = drift_input();
    let segmenter = SemanticSegmenter::new(DetailLevel::All);
    let first = run_segmentation(&segmenter, &frames, &embeddings);
    let second = run_segmentation(&segmenter, &frames, &embeddings);
    assert_eq!(first, second);
}

#[test]
fn test_segment_boundaries_exact() {
    // Eight frames, minimum segment length three. The verdict at frame 1 is
    // suppressed (open segment too short), frame 4 breaks, frame 6 is
    // suppressed again: exactly two segments of four frames each.
    let frames: Vec<EmbeddedFrame> = (0..8).map(frame).collect();
    let below = vec![false, true, false, false, true, false, true, false];
    let segmenter = SemanticSegmenter {
        similarity_threshold_permille: 850,
        min_segment_frames: 3,
    };
    let segments = segmenter.segment(&frames, &below);
    assert_eq!(segments.len(), 2);
    assert_eq!((segments[0].start_pos, segments[0].end_pos), (0, 3));
    assert_eq!((segments[1].start_pos, segments[1].end_pos), (4, 7));
    assert_eq!(segments[0].frame_count, 4);
    assert_eq!(segments[1].frame_count, 4);
    assert_eq!(segments[0].representative_pos, 2);
    assert_eq!(segments[1].representative_pos, 6);
    assert_eq!(segments[0].start_frame_idx, 0);
    assert_eq!(segments[0].end_frame_idx, 3);
    assert_eq!(segments[1].start_frame_idx, 4);
    assert_eq!(segments[1].end_frame_idx, 7);
}

#[test]
fn test_partition_no_gaps_no_overlaps() {
    let frames: Vec<EmbeddedFrame> = (0..20).map(frame).collect();
    let below: Vec<bool> = (0..20).map(|i| i % 3 == 0).collect();
    let segmenter = SemanticSegmenter {
        similarity_threshold_permille: 850,
        min_segment_frames: 4,
    };
    let segments = segmenter.segment(&frames, &below);
    assert!(!segments.is_empty());
    assert_eq!(segments[0].start_pos, 0);
    assert_eq!(segments.last().unwrap().end_pos, 19);
    let mut total = 0;
    for (k, seg) in segments.iter().enumerate() {
        assert_eq!(seg.index, k);
        assert!(seg.start_pos <= seg.end_pos);
        assert_eq!(seg.frame_count, seg.end_pos - seg.start_pos + 1);
        if k + 1 < segments.len() {
            assert_eq!(segments[k + 1].start_pos, seg.end_pos + 1);
        }
        total += seg.frame_count;
    }
    assert_eq!(total, 20);
}

#[test]
fn test_frame_selection_in_order() {
    let frames: Vec<EmbeddedFrame> = (0..12).map(frame).collect();
    let below = vec![true; 12];
    let segmenter = SemanticSegmenter {
        similarity_threshold_permille: 850,
        min_segment_frames: 4,
    };
    let segments = segmenter.segment(&frames, &below);
    let reps = deterministic_frame_selection(&segments);
    assert_eq!(reps.len(), segments.len());
    for (k, seg) in segments.iter().enumerate() {
        assert_eq!(reps[k], seg.representative_frame);
    }

    // With the segments handed over out of order, the selection still comes
    // back in ascending segment-index order.
    let mut shuffled = segments.clone();
    shuffled.reverse();
    let reps_sorted = deterministic_frame_selection(&shuffled);
    assert_eq!(reps_sorted.len(), reps.len());
    for k in 0..reps.len() {
        assert_eq!(reps_sorted[k], reps[k]);
    }
}

#[test]
fn test_min_length_suppresses_breaks() {
    // Every verdict is below threshold; with a minimum of 5 the breaks land
    // exactly every 5 frames.
    let frames: Vec<EmbeddedFrame> = (0..12).map(frame).collect();
    let below = vec![true; 12];
    let segmenter = SemanticSegmenter {
        similarity_threshold_permille: 850,
        min_segment_frames: 5,
    };
    let segments = segmenter.segment(&frames, &below);
    assert_eq!(segments.len(), 3);
    assert_eq!((segments[0].start_pos, segments[0].end_pos), (0, 4));
    assert_eq!((segments[1].start_pos, segments[1].end_pos), (5, 9));
    assert_eq!((segments[2].start_pos, segments[2].end_pos), (10, 11));
}
