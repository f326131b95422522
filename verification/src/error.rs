use vstd::prelude::*;
use crate::text::dec_digits;
use crate::text::u64_to_string;

verus! {

/// The failures a region loader can report.
///
/// `IoError` covers a read failure and a location entry whose four bytes are
/// not all inside the buffer. `PathNotFoundError` marks a save path that does
/// not exist. `IncompatibleCompressionType` carries the unsupported tag of a
/// chunk payload. `CorruptChunkData` marks a payload whose declared length
/// does not fit its slot or whose compressed stream is malformed.
#[derive(Debug, Clone, Copy, PartialEq, Eq, Structural)]
pub enum MCLoadError {
    IoError,
    PathNotFoundError,
    IncompatibleCompressionType(u8),
    CorruptChunkData,
}

/// The text that `MCLoadError::message` returns for each failure.
pub open spec fn spec_message(e: MCLoadError) -> Seq<char> {
    match e {
        MCLoadError::IoError => "IO error"@,
        MCLoadError::PathNotFoundError => "Path not found"@,
        MCLoadError::IncompatibleCompressionType(t) => (
            "Incompatible compression type "@ + dec_digits(t as nat)
        ),
        MCLoadError::CorruptChunkData => "Corrupt chunk data"@,
    }
}

impl MCLoadError {
    /// A human-readable description of the failure.
    pub fn message(&self) -> (s: String)
        ensures
            s@ == spec_message(*self),
    {
        match self {
            MCLoadError::IoError => String::from_str("IO error"),
            MCLoadError::PathNotFoundError => String::from_str("Path not found"),
            MCLoadError::IncompatibleCompressionType(t) => {
                let mut s = String::from_str("Incompatible compression type ");
                let d = u64_to_string(*t as u64);
                s.append(d.as_str());
                s
            },
            MCLoadError::CorruptChunkData => String::from_str("Corrupt chunk data"),
        }
    }
}

} // verus!
