//! Error kinds for every stage of the pipeline. Each variant carries enough
//! context (path, reason) to be actionable, and `message` renders the single
//! descriptive line shown to the user.

use vstd::prelude::*;
use vstd::string::*;

verus! {

/// Errors that can occur during an extraction run.
#[derive(Debug, Clone)]
pub enum Error {
    /// Video file not found (or not a regular file).
    VideoNotFound(String),
    /// The file's extension is not in the supported set.
    UnsupportedFormat { path: String, extension: String },
    /// A frame (or the stream) could not be decoded.
    VideoDecode { path: String, reason: String },
    /// Error with the video capture device.
    VideoCapture(String),
    /// Error computing embeddings.
    Embedding(String),
    /// Error loading the embedding model.
    ModelLoad(String),
    /// Error writing output.
    Output(String),
    /// IO error.
    Io(String),
    /// Error reported by the video decoding backend.
    OpenCV(String),
    /// Error reported by the inference runtime.
    Onnx(String),
}

impl Error {
    pub open spec fn spec_message(self) -> Seq<char> {
        match self {
            Error::VideoNotFound(p) => "Video file not found: "@ + p@,
            Error::UnsupportedFormat { path: _, extension } => "Unsupported video format: '"@
                + extension@ + "'. Supported: mp4, avi, mov, mkv, webm, m4v, flv, wmv, mpeg, mpg"@,
            Error::VideoDecode { path, reason } => "Failed to decode video '"@ + path@ + "': "@
                + reason@,
            Error::VideoCapture(s) => "Video capture error: "@ + s@,
            Error::Embedding(s) => "Embedding error: "@ + s@,
            Error::ModelLoad(s) => "Model load error: "@ + s@,
            Error::Output(s) => "Output error: "@ + s@,
            Error::Io(s) => "IO error: "@ + s@,
            Error::OpenCV(s) => "OpenCV error: "@ + s@,
            Error::Onnx(s) => "ONNX Runtime error: "@ + s@,
        }
    }

    /// The descriptive one-line message for this error.
    pub fn message(&self) -> (r: String)
        ensures
            r@ == self.spec_message(),
    {
        match self {
            Error::VideoNotFound(p) => String::from_str("Video file not found: ").concat(
                p.as_str(),
            ),
            Error::UnsupportedFormat { path: _, extension } => String::from_str(
                "Unsupported video format: '",
            ).concat(extension.as_str()).concat(
                "'. Supported: mp4, avi, mov, mkv, webm, m4v, flv, wmv, mpeg, mpg",
            ),
            Error::VideoDecode { path, reason } => String::from_str("Failed to decode video '")
                .concat(path.as_str()).concat("': ").concat(reason.as_str()),
            Error::VideoCapture(s) => String::from_str("Video capture error: ").concat(s.as_str()),
            Error::Embedding(s) => String::from_str("Embedding error: ").concat(s.as_str()),
            Error::ModelLoad(s) => String::from_str("Model load error: ").concat(s.as_str()),
            Error::Output(s) => String::from_str("Output error: ").concat(s.as_str()),
            Error::Io(s) => String::from_str("IO error: ").concat(s.as_str()),
            Error::OpenCV(s) => String::from_str("OpenCV error: ").concat(s.as_str()),
            Error::Onnx(s) => String::from_str("ONNX Runtime error: ").concat(s.as_str()),
        }
    }
}

} // verus!
