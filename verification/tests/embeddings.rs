//! Tests of the embedding stage's pure parts: batching, downscaling and the
//! preprocessing resample.

use scenesplit::embeddings::chunk_ranges;
use scenesplit::embeddings::preprocess_resize;
use scenesplit::embeddings::scaled_dimensions;
use scenesplit::error::Error;
use scenesplit::video::Frame;

#[test]
fn test_chunk_ranges() {
    assert_eq!(chunk_ranges(10, 4), vec![(0, 4), (4, 8), (8, 10)]);
    assert_eq!(chunk_ranges(8, 4), vec![(0, 4), (4, 8)]);
    assert_eq!(chunk_ranges(3, 16), vec![(0, 3)]);
    assert_eq!(chunk_ranges(0, 5), Vec::<(usize, usize)>::new());
    assert_eq!(chunk_ranges(1, 1), vec![(0, 1)]);
}

#[test]
fn test_scaled_dimensions() {
    assert_eq!(scaled_dimensions(1920, 1080, 50), (960, 540));
    assert_eq!(scaled_dimensions(1920, 1080, 75), (1440, 810));
    assert_eq!(scaled_dimensions(1920, 1080, 100), (1920, 1080));
    assert_eq!(scaled_dimensions(99, 99, 50), (49, 49));
}

fn gradient_frame(width: u32, height: u32) -> Frame {
    let mut data = Vec::new();
    for y in 0..height {
        for x in 0..width {
            data.push((x * 17 % 256) as u8);
            data.push((y * 31 % 256) as u8);
            data.push(((x + y) % 256) as u8);
        }
    }
    Frame {
        index: 0,
        timestamp_ms: 0,
        data,
        width,
        height,
    }
}

#[test]
fn test_preprocess_resize_full_size() {
    let frame = gradient_frame(10, 10);
    let bytes = preprocess_resize(&frame, 100).unwrap();
    assert_eq!(bytes.len(), 3 * 224 * 224);
}

#[test]
fn test_preprocess_resize_downscaled() {
    let frame = gradient_frame(16, 12);
    let bytes = preprocess_resize(&frame, 50).unwrap();
    assert_eq!(bytes.len(), 3 * 224 * 224);
}

#[test]
fn test_preprocess_resize_rejects_bad_buffer() {
    let mut frame = gradient_frame(10, 10);
    frame.data.pop();
    match preprocess_resize(&frame, 100) {
        Err(Error::Embedding(m)) => {
            assert_eq!(m, "Failed to create image from frame data");
        }
        other => panic!("expected an embedding error, got {:?}", other),
    }
}
