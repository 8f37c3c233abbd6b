//! The pipeline's error taxonomy. `Config` and `Enumeration` are fatal and
//! abort a run before any file is touched; every other kind is scoped to one
//! document, is reported, and lets the run continue with the next candidate.

use vstd::prelude::*;

verus! {

/// Why rendering a document into a composite image failed.
#[derive(Debug, Clone, PartialEq, Eq, Structural)]
pub enum RenderFault {
    /// No pages were produced.
    NoPages,
    /// The canvas would have zero width or zero height.
    ZeroDimension,
    /// The canvas would not fit in memory.
    TooLarge,
}

/// One error of the extraction pipeline.
#[derive(Debug, Clone, PartialEq)]
pub enum IntelError {
    /// A missing glob pattern or API credential.
    Config { message: String },
    /// A syntactically invalid glob pattern, or an unreadable path entry.
    Enumeration { message: String },
    /// The document could not be rendered into a usable canvas.
    Render { fault: RenderFault },
    /// Empty or unreadable PDF bytes in direct-bytes mode.
    Read { message: String },
    /// The endpoint rejected the request with a structured error body.
    Api { error_type: String, message: String },
    /// A non-success status whose body is not a structured error; the body
    /// is kept verbatim for diagnostics.
    Transport { status: u16, raw_body: String },
    /// A success status without a usable answer text in the envelope.
    MalformedResponse { raw_body: String },
    /// The answer text could not be repaired into JSON.
    JsonRepair { original: String },
    /// The repaired text did not decode into the record; both texts are kept
    /// for diagnostics.
    JsonDecode { original: String, repaired: String },
    /// The filesystem rename failed.
    Rename { message: String },
}

} // verus!
