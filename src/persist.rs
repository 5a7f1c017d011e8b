use vstd::prelude::*;
use vstd::utf8::{decode_utf8, valid_utf8};
use crate::base::{bytes_to_i32, bytes_to_str, le_i32};
use crate::error::CodecError;

verus! {

/// Decides the integer stored in a file from the outcome of reading the whole
/// file: `None` when the read failed, else the file's content. A file holds
/// exactly one four-byte encoding, so any other length is `Corruption`; a
/// failed read is always `IoError`.
pub fn i32_from_file_content(content: Option<&[u8]>) -> (r: Result<i32, CodecError>)
    ensures
        content is None ==> r == Err::<i32, CodecError>(CodecError::IoError),
        content matches Some(b) ==> (b@.len() != 4 <==> r == Err::<i32, CodecError>(
            CodecError::Corruption,
        )),
        content matches Some(b) ==> (b@.len() == 4 ==> r == Ok::<i32, CodecError>(le_i32(b@))),
{
    match content {
        None => Err(CodecError::IoError),
        Some(b) => {
            if b.len() != 4 {
                Err(CodecError::Corruption)
            } else {
                bytes_to_i32(b)
            }
        },
    }
}

/// Decides the text stored in a file from the outcome of reading the whole
/// file: `None` when the read failed, else the file's content, which must be
/// valid UTF-8. A failed read is always `IoError`.
pub fn string_from_file_content(content: Option<&[u8]>) -> (r: Result<String, CodecError>)
    ensures
        content is None ==> r == Err::<String, CodecError>(CodecError::IoError),
        content matches Some(b) ==> (r is Ok <==> valid_utf8(b@)),
        content matches Some(b) ==> (!valid_utf8(b@) ==> r == Err::<String, CodecError>(
            CodecError::InvalidEncoding,
        )),
        content matches Some(b) ==> (r matches Ok(s) ==> s@ == decode_utf8(b@)),
{
    match content {
        None => Err(CodecError::IoError),
        Some(b) => match bytes_to_str(b) {
            Ok(s) => Ok(s.to_owned()),
            Err(e) => Err(e),
        },
    }
}

} // verus!
