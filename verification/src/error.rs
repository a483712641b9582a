use vstd::prelude::*;

verus! {

/// The error kinds the library reports.
///
/// Parse-time errors (`MalformedDocument`, `MissingRequiredField`,
/// `InvalidDiscriminator`, `MalformedOutputRecord`) abort a whole load:
/// there is no partial notebook. `IOFailure` is reserved for callers that
/// read or write files around the library, so that "bad input" and "cannot
/// write output" stay distinguishable. `Unsupported` reports an operation
/// this design leaves unimplemented.
#[derive(Debug, Clone, Copy, PartialEq, Eq, Structural)]
pub enum IPyNbError {
    /// The document text is not valid JSON.
    MalformedDocument,
    /// A required field (version numbers, cell id, cell type, output type,
    /// source lines, outputs array, execution counter) is absent or of the
    /// wrong type.
    MissingRequiredField,
    /// A `cell_type` value is not one of the recognized strings.
    InvalidDiscriminator,
    /// An output object does not match any of the three known shapes.
    MalformedOutputRecord,
    /// A file could not be read or written.
    IOFailure,
    /// The operation is not implemented.
    Unsupported,
}

} // verus!
