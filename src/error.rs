use vstd::prelude::*;

verus! {

/// Why a decode or a file operation failed.
#[derive(Debug, Clone, Copy, PartialEq, Eq, Structural)]
pub enum CodecError {
    /// The buffer does not have the fixed width the value kind asks for.
    Corruption,
    /// The bytes offered as text are not valid UTF-8.
    InvalidEncoding,
    /// The file system could not read or write the file.
    IoError,
}

} // verus!
