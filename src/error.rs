use vstd::prelude::*;

verus! {

/// Failure kinds of the library's operations.
#[derive(Debug, Clone, Copy, PartialEq, Eq, Structural)]
pub enum ScanError {
    /// The bytes could not be read as an image.
    Decode,
    /// A file-system read, write, stat or create failed.
    Io,
    /// A model file could not be fetched.
    Download,
    /// A transform name outside the supported set.
    UnknownAction,
    /// A model could not be loaded or the engine not built.
    Inference,
}

} // verus!
