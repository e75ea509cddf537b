//! Embedding-model caching: where the model lives on disk. The model is
//! fetched on first use and cached under the platform cache directory, keyed
//! by a fixed filename; the download itself (with its atomic
//! write-then-rename) happens outside the library.

use vstd::prelude::*;
use vstd::string::*;

verus! {

/// The fixed filename the cached model is keyed by.
pub open spec fn spec_model_filename() -> Seq<char> {
    "resnet50-v2-7.onnx"@
}

/// The cached model's filename.
pub fn model_filename() -> (r: &'static str)
    ensures
        r@ == spec_model_filename(),
{
    "resnet50-v2-7.onnx"
}

/// Where the model is fetched from: the standard ResNet50 of the ONNX model
/// zoo, feature-extraction variant.
pub fn model_url() -> (r: &'static str)
    ensures
        r@
            == "https://github.com/onnx/models/raw/main/validated/vision/classification/resnet/model/resnet50-v2-7.onnx"@,
{
    "https://github.com/onnx/models/raw/main/validated/vision/classification/resnet/model/resnet50-v2-7.onnx"
}

/// Relies on dirs::cache_dir: the platform cache directory, taken from the
/// environment, so nothing can be promised of the value.
#[verifier::external_body]
fn cache_base_dir() -> (r: Option<String>) {
    dirs::cache_dir().map(|p| p.to_string_lossy().into_owned())
}

/// The tail every model cache path ends with: the cache subdirectory and
/// the fixed filename.
pub open spec fn spec_model_path_tail() -> Seq<char> {
    "/scenesplit/resnet50-v2-7.onnx"@
}

/// The model's path under a given cache base directory.
pub fn model_path_in(base: &str) -> (r: String)
    ensures
        r@ == base@ + spec_model_path_tail(),
{
    let mut s = base.to_owned();
    s.append("/scenesplit/resnet50-v2-7.onnx");
    s
}

/// The path where the model is (or would be) cached: the fixed tail under
/// the platform cache directory, when one exists.
pub fn model_cache_path() -> (r: Option<String>)
    ensures
        r matches Some(p) ==> p@.len() >= spec_model_path_tail().len() && p@.subrange(
            p@.len() - spec_model_path_tail().len(),
            p@.len() as int,
        ) == spec_model_path_tail(),
{
    match cache_base_dir() {
        Some(base) => {
            let p = model_path_in(base.as_str());
            proof {
                assert(p@.subrange(
                    p@.len() - spec_model_path_tail().len(),
                    p@.len() as int,
                ) =~= spec_model_path_tail());
            }
            Some(p)
        },
        None => None,
    }
}

} // verus!
