//! Errors of the region map, the key parser and the sector cipher.
use vstd::prelude::*;

verus! {

/// The failures that the region map, the key parser and the sector cipher report.
#[derive(Clone, Copy, Debug, PartialEq, Eq, Structural)]
pub enum DiscError {
    /// The header is too short, or its region fields are inconsistent.
    MalformedHeader,
    /// No region of the map holds the requested sector.
    SectorOutOfRange,
    /// A sector buffer's length is not a multiple of the cipher block size.
    InvalidBlockAlignment,
    /// A key string is not 32 hexadecimal digits once whitespace is removed.
    InvalidKeyFormat,
}

} // verus!
