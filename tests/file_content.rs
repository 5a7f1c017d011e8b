use ninja_codec::base::{i32_to_bytes, str_to_bytes};
use ninja_codec::error::CodecError;
use ninja_codec::persist::{i32_from_file_content, string_from_file_content};

#[test]
fn int_file_content_round_trip() {
    let written = i32_to_bytes(17);
    assert_eq!(i32_from_file_content(Some(&written)), Ok(17));
}

#[test]
fn text_file_content_round_trip() {
    let written = str_to_bytes("ugabuga");
    assert_eq!(string_from_file_content(Some(written)), Ok(String::from("ugabuga")));
}

#[test]
fn failed_read_is_io_error() {
    assert_eq!(i32_from_file_content(None), Err(CodecError::IoError));
    assert_eq!(string_from_file_content(None), Err(CodecError::IoError));
}

#[test]
fn int_file_of_wrong_length_is_corruption() {
    assert_eq!(i32_from_file_content(Some(&[])), Err(CodecError::Corruption));
    assert_eq!(i32_from_file_content(Some(&[17, 0, 0])), Err(CodecError::Corruption));
    assert_eq!(i32_from_file_content(Some(&[17, 0, 0, 0, 0])), Err(CodecError::Corruption));
}

#[test]
fn text_file_not_utf8_is_invalid_encoding() {
    assert_eq!(string_from_file_content(Some(&[0xFF])), Err(CodecError::InvalidEncoding));
}
