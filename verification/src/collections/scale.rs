//! The SCALE encoding of the element types that the queues come with:
//! `i32` and `String`. The bytes are made and read by `parity_scale_codec`;
//! what they are is written down here.

use crate::collections::codec::Encodable;
use vstd::prelude::*;
use vstd::utf8::{decode_utf8, encode_utf8, encode_utf8_decode_utf8, encode_utf8_valid_utf8, valid_utf8};

verus! {

/// The four bytes, least significant first, of the 32-bit word `word`.
pub open spec fn word_bytes(word: int) -> Seq<u8> {
    seq![
        (word % 256) as u8,
        (word / 256 % 256) as u8,
        (word / 65536 % 256) as u8,
        (word / 16777216 % 256) as u8,
    ]
}

/// The 32-bit word whose bytes, least significant first, are the first four
/// of `bytes`.
pub open spec fn bytes_word(bytes: Seq<u8>) -> int {
    bytes[0] + 256 * bytes[1] + 65536 * bytes[2] + 16777216 * bytes[3]
}

/// A signed 32-bit integer as a 32-bit word, in two's complement.
pub open spec fn signed_word(value: i32) -> int {
    if value >= 0 {
        value as int
    } else {
        value + 0x1_0000_0000
    }
}

/// The signed 32-bit integer that the two's complement word `word` stands for.
pub open spec fn word_signed(word: int) -> i32 {
    if word < 0x8000_0000 {
        word as i32
    } else {
        (word - 0x1_0000_0000) as i32
    }
}

/// `parity_scale_codec::Encode::encode` on an `i32`: the four bytes of the
/// value in two's complement, least significant byte first.
#[verifier::external_body]
fn scale_encode_i32(value: &i32) -> (bytes: Vec<u8>)
    ensures
        bytes@ == word_bytes(signed_word(*value)),
{
    parity_scale_codec::Encode::encode(value)
}

/// `parity_scale_codec::Decode::decode` for `i32` on a byte slice: it reads
/// four bytes as a two's complement word, least significant byte first, and
/// fails exactly when fewer than four bytes are there. Bytes after the
/// fourth are not looked at.
#[verifier::external_body]
fn scale_decode_i32(bytes: &[u8]) -> (r: Result<i32, parity_scale_codec::Error>)
    ensures
        r is Ok <==> bytes@.len() >= 4,
        r matches Ok(value) ==> value == word_signed(bytes_word(bytes@)),
{
    let mut input = bytes;
    <i32 as parity_scale_codec::Decode>::decode(&mut input)
}

impl Encodable for i32 {
    open spec fn representable(value: i32) -> bool {
        true
    }

    open spec fn encoding(value: i32) -> Seq<u8> {
        word_bytes(signed_word(value))
    }

    open spec fn decoding(bytes: Seq<u8>) -> Option<i32> {
        if bytes.len() >= 4 {
            Some(word_signed(bytes_word(bytes)))
        } else {
            None
        }
    }

    proof fn lemma_round_trip(value: i32) {
        let word = signed_word(value);
        assert(0 <= word < 0x1_0000_0000);
        assert(bytes_word(word_bytes(word)) == word);
    }

    fn is_representable(&self) -> (yes: bool) {
        true
    }

    fn to_bytes(&self) -> (bytes: Vec<u8>) {
        scale_encode_i32(self)
    }

    fn from_bytes(bytes: &[u8]) -> (r: Result<i32, parity_scale_codec::Error>) {
        scale_decode_i32(bytes)
    }
}

/// The length prefix of a sequence of `length` items, for a length that
/// fits in 32 bits. Short lengths take one byte, longer ones two or four,
/// the longest five; the low two bits of the first byte tell which.
pub open spec fn length_prefix(length: int) -> Seq<u8> {
    if length < 64 {
        seq![(4 * length) as u8]
    } else if length < 16384 {
        seq![((4 * length + 1) % 256) as u8, ((4 * length + 1) / 256) as u8]
    } else if length < 0x4000_0000 {
        word_bytes(4 * length + 2)
    } else {
        seq![3u8] + word_bytes(length)
    }
}

/// The length that `bytes` start with and the number of bytes that its
/// prefix takes, if `bytes` start with a length prefix. A length written in
/// more bytes than it needs is no length prefix.
pub open spec fn prefixed_length(bytes: Seq<u8>) -> Option<(int, int)> {
    if bytes.len() == 0 {
        None
    } else if bytes[0] % 4 == 0 {
        Some((bytes[0] as int / 4, 1))
    } else if bytes[0] % 4 == 1 {
        if bytes.len() >= 2 && (bytes[0] + 256 * bytes[1]) / 4 > 63 {
            Some(((bytes[0] + 256 * bytes[1]) / 4, 2))
        } else {
            None
        }
    } else if bytes[0] % 4 == 2 {
        if bytes.len() >= 4 && bytes_word(bytes) / 4 > 16383 {
            Some((bytes_word(bytes) / 4, 4))
        } else {
            None
        }
    } else {
        if bytes[0] == 3 && bytes.len() >= 5 && bytes_word(bytes.subrange(1, 5)) > 0x3fff_ffff {
            Some((bytes_word(bytes.subrange(1, 5)), 5))
        } else {
            None
        }
    }
}

/// The bytes of a string: the length prefix of its UTF-8 bytes, then those
/// bytes.
pub open spec fn string_encoding(chars: Seq<char>) -> Seq<u8> {
    length_prefix(encode_utf8(chars).len() as int) + encode_utf8(chars)
}

/// The string that `bytes` start with: a length prefix, then as many bytes
/// as it says, which are valid UTF-8.
pub open spec fn string_decoding(bytes: Seq<u8>) -> Option<Seq<char>> {
    match prefixed_length(bytes) {
        Some((length, used)) => if bytes.len() - used >= length && valid_utf8(
            bytes.subrange(used, used + length),
        ) {
            Some(decode_utf8(bytes.subrange(used, used + length)))
        } else {
            None
        },
        None => None,
    }
}

/// Reading the four bytes of a word gives the word back.
proof fn lemma_word_round_trip(word: int)
    requires
        0 <= word < 0x1_0000_0000,
    ensures
        word_bytes(word).len() == 4,
        bytes_word(word_bytes(word)) == word,
        word_bytes(word)[0] % 4 == word % 4,
{
    let b0 = word % 256;
    let b1 = word / 256 % 256;
    let b2 = word / 65536 % 256;
    let b3 = word / 16777216 % 256;
    assert(word == b0 + 256 * b1 + 65536 * b2 + 16777216 * b3);
    assert(b0 % 4 == word % 4);
}

/// Reading a length prefix gives back the length it was written for.
pub proof fn lemma_length_prefix_round_trip(length: int, rest: Seq<u8>)
    requires
        0 <= length <= u32::MAX,
    ensures
        prefixed_length(length_prefix(length) + rest) == Some(
            (length, length_prefix(length).len() as int),
        ),
{
    let prefix = length_prefix(length);
    let bytes = prefix + rest;
    if length < 64 {
        assert(bytes[0] == prefix[0]);
        assert(bytes[0] == 4 * length);
    } else if length < 16384 {
        let v = 4 * length + 1;
        assert(bytes[0] == prefix[0] && bytes[1] == prefix[1]);
        assert(bytes[0] == v % 256 && bytes[1] == v / 256);
        assert(bytes[0] + 256 * bytes[1] == v);
        assert(bytes[0] % 4 == 1);
    } else if length < 0x4000_0000 {
        let w = 4 * length + 2;
        lemma_word_round_trip(w);
        assert(bytes[0] == prefix[0] && bytes[1] == prefix[1] && bytes[2] == prefix[2] && bytes[3]
            == prefix[3]);
        assert(bytes_word(bytes) == bytes_word(prefix));
        assert(bytes[0] % 4 == 2);
    } else {
        lemma_word_round_trip(length);
        assert(bytes[0] == 3);
        assert(bytes.subrange(1, 5) =~= word_bytes(length));
    }
}

/// `parity_scale_codec::Encode::encode` on a `str`: the length prefix of
/// its UTF-8 bytes, then those bytes. It does not return for a string of
/// more than `u32::MAX` bytes.
#[verifier::external_body]
fn scale_encode_str(value: &str) -> (bytes: Vec<u8>)
    requires
        encode_utf8(value@).len() <= u32::MAX,
    ensures
        bytes@ == string_encoding(value@),
{
    parity_scale_codec::Encode::encode(value)
}

/// `parity_scale_codec::Decode::decode` for `String` on a byte slice: it
/// reads a length prefix and then that many bytes, which must be valid
/// UTF-8. It fails where the prefix is malformed, where fewer bytes follow
/// than it says, and where they are no valid UTF-8. Bytes after the string
/// are not looked at.
#[verifier::external_body]
fn scale_decode_string(bytes: &[u8]) -> (r: Result<String, parity_scale_codec::Error>)
    ensures
        r is Ok <==> string_decoding(bytes@) is Some,
        r matches Ok(value) ==> string_decoding(bytes@) == Some(value@),
{
    let mut input = bytes;
    <String as parity_scale_codec::Decode>::decode(&mut input)
}

impl Encodable for String {
    open spec fn representable(value: Seq<char>) -> bool {
        encode_utf8(value).len() <= u32::MAX
    }

    open spec fn encoding(value: Seq<char>) -> Seq<u8> {
        string_encoding(value)
    }

    open spec fn decoding(bytes: Seq<u8>) -> Option<Seq<char>> {
        string_decoding(bytes)
    }

    proof fn lemma_round_trip(value: Seq<char>) {
        let text = encode_utf8(value);
        let prefix = length_prefix(text.len() as int);
        lemma_length_prefix_round_trip(text.len() as int, text);
        assert((prefix + text).subrange(prefix.len() as int, prefix.len() + text.len() as int) =~= text);
        encode_utf8_valid_utf8(value);
        encode_utf8_decode_utf8(value);
    }

    fn is_representable(&self) -> (yes: bool) {
        self.as_str().as_bytes().len() <= 0xffff_ffff
    }

    fn to_bytes(&self) -> (bytes: Vec<u8>) {
        scale_encode_str(self.as_str())
    }

    fn from_bytes(bytes: &[u8]) -> (r: Result<String, parity_scale_codec::Error>) {
        scale_decode_string(bytes)
    }
}

} // verus!
