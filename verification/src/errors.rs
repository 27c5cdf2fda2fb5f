//! The recoverable failure conditions of export and feed synthesis.
//!
//! Every failure stems from a static precondition (missing file, bad
//! configuration); each operation reports one of these and stops.

use vstd::prelude::*;

verus! {

/// A failure of one export or feed-synthesis operation.
#[derive(Debug)]
pub enum Error {
    /// The configuration resource does not exist.
    ConfigMissing,
    /// The configuration exists but cannot be parsed into the expected
    /// shape; `detail` names the parse failure or the offending field.
    ConfigMalformed { detail: String },
    /// The requested source document does not exist.
    DocumentNotFound { document: String },
    /// A block's source file could not be read.
    SourceUnreadable { path: String },
    /// A block declares no format tag.
    FormatMissing,
    /// A block declares a format tag the renderer does not recognize.
    UnsupportedFormat { format: String },
    /// Persisting an output file failed; `path` is the triggering path.
    WriteFailed { path: String },
    /// Feed synthesis found required manifest fields absent; `fields` holds
    /// every missing field name, together, in manifest field order.
    MissingFeedFields { fields: Vec<String> },
}

/// Mathematical model of an `Error`.
#[verifier::ext_equal]
pub ghost enum ErrorV {
    ConfigMissing,
    ConfigMalformed { detail: Seq<char> },
    DocumentNotFound { document: Seq<char> },
    SourceUnreadable { path: Seq<char> },
    FormatMissing,
    UnsupportedFormat { format: Seq<char> },
    WriteFailed { path: Seq<char> },
    MissingFeedFields { fields: Seq<Seq<char>> },
}

impl DeepView for Error {
    type V = ErrorV;

    open spec fn deep_view(&self) -> ErrorV {
        match self {
            Error::ConfigMissing => ErrorV::ConfigMissing,
            Error::ConfigMalformed { detail } => ErrorV::ConfigMalformed { detail: detail@ },
            Error::DocumentNotFound { document } => ErrorV::DocumentNotFound {
                document: document@,
            },
            Error::SourceUnreadable { path } => ErrorV::SourceUnreadable { path: path@ },
            Error::FormatMissing => ErrorV::FormatMissing,
            Error::UnsupportedFormat { format } => ErrorV::UnsupportedFormat { format: format@ },
            Error::WriteFailed { path } => ErrorV::WriteFailed { path: path@ },
            Error::MissingFeedFields { fields } => ErrorV::MissingFeedFields {
                fields: fields.deep_view(),
            },
        }
    }
}

/// The model of a `Result` whose sides both have models.
pub open spec fn result_v<T: DeepView, E: DeepView>(r: Result<T, E>) -> Result<T::V, E::V> {
    match r {
        Ok(t) => Ok(t.deep_view()),
        Err(e) => Err(e.deep_view()),
    }
}

} // verus!
