pub mod error;

use vstd::prelude::*;

verus! {

use crate::error::IPyNbError;

/// The formats a notebook can be exported to. Only Markdown is implemented.
#[derive(Debug, Clone, Copy, PartialEq, Eq, Structural)]
pub enum ExportFormat {
    Markdown,
}

/// The kind of a notebook cell: explanatory text or executable source.
#[derive(Debug, Clone, Copy, PartialEq, Eq, Structural)]
pub enum CellType {
    Markdown,
    Code,
}

/// What `CellType::from_str` returns for a given discriminator string:
/// the two recognized strings map to their variant, anything else is an
/// invalid discriminator.
pub open spec fn spec_cell_type_of(s: Seq<char>) -> Result<CellType, IPyNbError> {
    if s == "markdown"@ {
        Ok(CellType::Markdown)
    } else if s == "code"@ {
        Ok(CellType::Code)
    } else {
        Err(IPyNbError::InvalidDiscriminator)
    }
}

impl CellType {
    /// Converts a `cell_type` discriminator string to its variant.
    pub fn from_str(cell_type: &str) -> (r: Result<CellType, IPyNbError>)
        ensures
            r == spec_cell_type_of(cell_type@),
    {
        if crate::utils::str_eq(cell_type, "markdown") {
            Ok(CellType::Markdown)
        } else if crate::utils::str_eq(cell_type, "code") {
            Ok(CellType::Code)
        } else {
            Err(IPyNbError::InvalidDiscriminator)
        }
    }
}

/// The origin of a recorded output: stream text, an execution result,
/// or an error with a traceback.
#[derive(Debug, Clone, Copy, PartialEq, Eq, Structural)]
pub enum OutputType {
    Stream,
    ExecuteResult,
    Error,
}

/// What `OutputType::from_str` returns for a given discriminator string.
pub open spec fn spec_output_type_of(s: Seq<char>) -> Result<OutputType, IPyNbError> {
    if s == "stream"@ {
        Ok(OutputType::Stream)
    } else if s == "execute_result"@ {
        Ok(OutputType::ExecuteResult)
    } else if s == "error"@ {
        Ok(OutputType::Error)
    } else {
        Err(IPyNbError::InvalidDiscriminator)
    }
}

impl OutputType {
    /// Converts an `output_type` discriminator string to its variant.
    pub fn from_str(output_type: &str) -> (r: Result<OutputType, IPyNbError>)
        ensures
            r == spec_output_type_of(output_type@),
    {
        if crate::utils::str_eq(output_type, "stream") {
            Ok(OutputType::Stream)
        } else if crate::utils::str_eq(output_type, "execute_result") {
            Ok(OutputType::ExecuteResult)
        } else if crate::utils::str_eq(output_type, "error") {
            Ok(OutputType::Error)
        } else {
            Err(IPyNbError::InvalidDiscriminator)
        }
    }
}

} // verus!

pub mod json;
pub mod notebook;
pub mod utils;

pub use notebook::{Cell, Metadata, Notebook, Output};
