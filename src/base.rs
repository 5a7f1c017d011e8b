use vstd::prelude::*;
use byteorder::{ByteOrder, LittleEndian};
use crate::error::CodecError;
use vstd::string::StringSliceAdditionalSpecFns;
use vstd::utf8::{decode_utf8, encode_utf8, valid_utf8, encode_utf8_decode_utf8, encode_utf8_valid_utf8};

verus! {

/// The unsigned value of the first four bytes of `b`, least significant first.
pub open spec fn le_u32_value(b: Seq<u8>) -> int {
    b[0] + 256 * b[1] + 65536 * b[2] + 16777216 * b[3]
}

/// The two's-complement integer held little-endian in the first four bytes of `b`.
pub open spec fn le_i32(b: Seq<u8>) -> i32 {
    let u = le_u32_value(b);
    if u < 0x8000_0000 {
        u as i32
    } else {
        (u - 0x1_0000_0000) as i32
    }
}

/// The four bytes of `v` in two's complement, least significant first.
pub open spec fn le_bytes(v: i32) -> Seq<u8> {
    let u: int = if v < 0 { v + 0x1_0000_0000 } else { v as int };
    seq![(u % 256) as u8, (u / 256 % 256) as u8, (u / 65536 % 256) as u8, (u / 16777216) as u8]
}

/// Relies on `LittleEndian::read_i32` of byteorder: it reads the first four
/// bytes as a little-endian two's-complement integer (it panics on fewer).
#[verifier::external_body]
fn read_le_i32(buf: &[u8]) -> (r: i32)
    requires
        buf@.len() >= 4,
    ensures
        r == le_i32(buf@),
{
    LittleEndian::read_i32(buf)
}

/// Relies on `LittleEndian::write_i32` of byteorder: it overwrites the first
/// four bytes with the little-endian two's complement of `n` (it panics on fewer).
#[verifier::external_body]
fn write_le_i32(buf: &mut Vec<u8>, n: i32)
    requires
        old(buf)@.len() == 4,
    ensures
        final(buf)@ == le_bytes(n),
{
    LittleEndian::write_i32(buf, n)
}

/// Decoding the encoding of any integer gives the integer back.
pub proof fn lemma_int32_round_trip(v: i32)
    ensures
        le_bytes(v).len() == 4,
        le_i32(le_bytes(v)) == v,
{
    let u: int = if v < 0 { v + 0x1_0000_0000 } else { v as int };
    let b = le_bytes(v);
    assert(0 <= u < 0x1_0000_0000);
    assert(le_u32_value(b) == u) by (nonlinear_arith)
        requires
            0 <= u < 0x1_0000_0000,
            b[0] == u % 256,
            b[1] == u / 256 % 256,
            b[2] == u / 65536 % 256,
            b[3] == u / 16777216,
    ;
}

/// Encodes `inp` as its four little-endian bytes.
pub fn i32_to_bytes(inp: i32) -> (r: Vec<u8>)
    ensures
        r@ == le_bytes(inp),
{
    let mut bytes: Vec<u8> = vec![0u8; 4];
    write_le_i32(&mut bytes, inp);
    bytes
}

/// Decodes the integer held in the first four bytes of `inp`; bytes past the
/// fourth are not read. Fewer than four bytes is `Corruption`.
pub fn bytes_to_i32(inp: &[u8]) -> (r: Result<i32, CodecError>)
    ensures
        inp@.len() < 4 <==> r == Err::<i32, CodecError>(CodecError::Corruption),
        inp@.len() >= 4 ==> r == Ok::<i32, CodecError>(le_i32(inp@)),
{
    if inp.len() < 4 {
        Err(CodecError::Corruption)
    } else {
        Ok(read_le_i32(inp))
    }
}

/// Relies on `std::str::from_utf8`: it succeeds exactly when the bytes are
/// valid UTF-8, and the text it then hands back is made of those very bytes.
#[verifier::external_body]
fn utf8_text<'a>(b: &'a [u8]) -> (r: Option<&'a str>)
    ensures
        r is Some <==> valid_utf8(b@),
        r matches Some(s) ==> s.spec_bytes() == b@,
{
    std::str::from_utf8(b).ok()
}

/// Reads the whole of `inp` as UTF-8 text; bytes that are not valid UTF-8
/// give `InvalidEncoding`.
pub fn bytes_to_str<'a>(inp: &'a [u8]) -> (r: Result<&'a str, CodecError>)
    ensures
        r is Ok <==> valid_utf8(inp@),
        r matches Ok(s) ==> s@ == decode_utf8(inp@),
        r matches Err(e) ==> e == CodecError::InvalidEncoding,
{
    match utf8_text(inp) {
        Some(s) => {
            proof {
                encode_utf8_decode_utf8(s@);
            }
            Ok(s)
        },
        None => Err(CodecError::InvalidEncoding),
    }
}

/// The UTF-8 bytes of `inp`, with no length prefix and no terminator.
pub fn str_to_bytes<'a>(inp: &'a str) -> (r: &'a [u8])
    ensures
        r@ == encode_utf8(inp@),
{
    inp.as_bytes()
}

/// Decoding the UTF-8 encoding of any text succeeds and gives the text back.
pub proof fn lemma_text_round_trip(t: Seq<char>)
    ensures
        valid_utf8(encode_utf8(t)),
        decode_utf8(encode_utf8(t)) == t,
{
    encode_utf8_valid_utf8(t);
    encode_utf8_decode_utf8(t);
}

/// The encoding of a shape: the four-byte encodings of its elements, in order.
pub open spec fn shape_bytes(s: Seq<i32>) -> Seq<u8>
    decreases s.len(),
{
    if s.len() == 0 {
        Seq::empty()
    } else {
        shape_bytes(s.drop_last()) + le_bytes(s.last())
    }
}

/// The shape held in `b`: one integer for each whole four-byte chunk, in order.
pub open spec fn shape_of(b: Seq<u8>) -> Seq<i32> {
    Seq::new((b.len() / 4) as nat, |i: int| le_i32(b.subrange(4 * i, 4 * i + 4)))
}

/// Element `i` of a shape sits in bytes `4 * i .. 4 * i + 4` of its encoding.
pub proof fn lemma_shape_bytes_layout(s: Seq<i32>, i: int)
    requires
        0 <= i < s.len(),
    ensures
        shape_bytes(s).len() == 4 * s.len(),
        shape_bytes(s).subrange(4 * i, 4 * i + 4) == le_bytes(s[i]),
    decreases s.len(),
{
    lemma_int32_round_trip(s.last());
    if i == s.len() - 1 {
        if s.len() > 1 {
            lemma_shape_bytes_layout(s.drop_last(), 0);
        }
        assert(shape_bytes(s).subrange(4 * i, 4 * i + 4) =~= le_bytes(s[i]));
    } else {
        lemma_shape_bytes_layout(s.drop_last(), i);
        assert(shape_bytes(s).subrange(4 * i, 4 * i + 4) =~= shape_bytes(s.drop_last()).subrange(
            4 * i,
            4 * i + 4,
        ));
    }
}

/// The encoding of a shape is four bytes for each element.
pub proof fn lemma_shape_bytes_len(s: Seq<i32>)
    ensures
        shape_bytes(s).len() == 4 * s.len(),
{
    if s.len() > 0 {
        lemma_shape_bytes_layout(s, 0);
    }
}

/// Decoding the encoding of any shape gives back the same elements in the same order.
pub proof fn lemma_shape_round_trip(s: Seq<i32>)
    ensures
        shape_bytes(s).len() % 4 == 0,
        shape_of(shape_bytes(s)) == s,
{
    lemma_shape_bytes_len(s);
    let b = shape_bytes(s);
    assert forall|i: int| 0 <= i < s.len() implies #[trigger] shape_of(b)[i] == s[i] by {
        lemma_shape_bytes_layout(s, i);
        lemma_int32_round_trip(s[i]);
    }
    assert(shape_of(b) =~= s);
}

/// Encodes each axis length of `shape` as four little-endian bytes, in order.
pub fn shape_to_bytes(shape: &[i32]) -> (r: Vec<u8>)
    ensures
        r@ == shape_bytes(shape@),
        r@.len() == 4 * shape@.len(),
{
    let mut result: Vec<u8> = Vec::new();
    let mut i: usize = 0;
    while i < shape.len()
        invariant
            i <= shape@.len(),
            result@ == shape_bytes(shape@.take(i as int)),
        decreases shape@.len() - i,
    {
        let mut bytes = i32_to_bytes(shape[i]);
        result.append(&mut bytes);
        assert(shape@.take(i + 1).drop_last() =~= shape@.take(i as int));
        i += 1;
    }
    assert(shape@.take(i as int) =~= shape@);
    proof {
        lemma_shape_bytes_len(shape@);
    }
    result
}

/// Decodes consecutive four-byte chunks of `inp` into axis lengths, in order.
/// A length that is not a multiple of four is `Corruption`.
pub fn bytes_to_shape(inp: &[u8]) -> (r: Result<Vec<i32>, CodecError>)
    ensures
        inp@.len() % 4 != 0 ==> r == Err::<Vec<i32>, CodecError>(CodecError::Corruption),
        inp@.len() % 4 == 0 ==> (r matches Ok(v) && v@ == shape_of(inp@)),
{
    if inp.len() % 4 != 0 {
        return Err(CodecError::Corruption);
    }
    let mut result: Vec<i32> = Vec::new();
    let mut start: usize = 0;
    while start < inp.len()
        invariant
            inp@.len() % 4 == 0,
            start % 4 == 0,
            start <= inp@.len(),
            result@ == shape_of(inp@).take(start as int / 4),
        decreases inp@.len() - start,
    {
        let end: usize = start + 4;
        let axis_len = read_le_i32(&inp[start..end]);
        result.push(axis_len);
        assert(result@ =~= shape_of(inp@).take(end as int / 4));
        start = end;
    }
    assert(shape_of(inp@).take(start as int / 4) =~= shape_of(inp@));
    Ok(result)
}

} // verus!
