//! The library's error type.
use vstd::prelude::*;

verus! {

/// Everything that can go wrong in the library and in the program around it.
#[derive(Debug, PartialEq, Eq)]
pub enum InferaError {
    /// A requested model is not loaded.
    ModelNotFound(String),
    /// The input's shape does not match the model's.
    InvalidInputShape {
        /// The expected shape.
        expected: String,
        /// The shape given.
        actual: String,
    },
    /// An error of the inference engine.
    OnnxError(String),
    /// Memory could not be allocated.
    MemoryError,
    /// A string was not valid UTF-8.
    Utf8Error,
    /// A null pointer was passed.
    NullPointer,
    /// A file-system read, write or rename failed, or a transfer broke off.
    IoError(String),
    /// JSON could not be written or read.
    JsonError(String),
    /// A feature that the call needs is not enabled.
    FeatureNotEnabled(String),
    /// An HTTP request failed, by status, transport error or timeout.
    HttpRequestError(String),
    /// The cache directory could not be created or opened.
    CacheDirError(String),
    /// A blob's length is not a multiple of 4.
    InvalidBlobSize,
    /// A blob's element count does not fit the model's input shape.
    BlobShapeMismatch {
        /// The element count the model expects per batch item.
        expected: usize,
        /// The element count of the blob.
        actual: usize,
    },
}

} // verus!
