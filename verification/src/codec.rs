//! Trusted wrappers over the `data_encoding` crate, and the names of what
//! its encoders and decoders compute.

use vstd::prelude::*;

verus! {

/// What `data_encoding::BASE32_NOPAD.encode` returns for the given bytes
/// (RFC 4648 base32 with the standard alphabet and no padding).
pub uninterp spec fn base32_nopad_text(data: Seq<u8>) -> Seq<char>;

/// What `data_encoding::BASE32_NOPAD.decode` returns for the bytes of the
/// given text: `None` where the crate reports a `DecodeError`.
pub uninterp spec fn base32_nopad_decoded(text: Seq<char>) -> Option<Seq<u8>>;

/// What `data_encoding::BASE64.decode` returns for the bytes of the given
/// text: `None` where the crate reports a `DecodeError`.
pub uninterp spec fn base64_decoded(text: Seq<char>) -> Option<Seq<u8>>;

/// The symbol of a 5-bit value in the RFC 4648 base32 alphabet
/// `ABCDEFGHIJKLMNOPQRSTUVWXYZ234567`.
pub open spec fn base32_symbol(v: int) -> char {
    if v < 26 {
        (65 + v) as char
    } else {
        (50 + (v - 26)) as char
    }
}

/// Whether `c` is a symbol of the RFC 4648 base32 alphabet.
pub open spec fn is_base32_char(c: char) -> bool {
    ('A' <= c <= 'Z') || ('2' <= c <= '7')
}

/// Whether `data_encoding` can encode `len` bytes: its `encode_len` asserts
/// `len <= usize::MAX / 512` and panics beyond.
pub open spec fn encodable_length(len: int) -> bool {
    len <= usize::MAX / 512
}

/// Whether `data_encoding` can decode the UTF-8 bytes of `text`: its
/// `decode_len` asserts a byte length of at most `usize::MAX / 8` and
/// panics beyond.
pub open spec fn decodable_text(text: Seq<char>) -> bool {
    vstd::utf8::encode_utf8(text).len() <= usize::MAX / 8
}

/// `data_encoding::BASE32_NOPAD.encode`. Claims that the result is the
/// named encoding of `data`, and that decoding it gives `data` back, which
/// the crate documents as correctness ("encoding followed by decoding gives
/// the initial data"); that it has `ceil(8n / 5)` symbols for `n` bytes (no
/// padding), each one of the alphabet; and that its first symbol is that of
/// the five high bits of the first byte (RFC 4648 base32 takes the bits
/// most significant first, and the crate's `BASE32_NOPAD` is that alphabet
/// with that bit order). `encode_len` panics past `encodable_length`.
#[verifier::external_body]
pub(crate) fn base32_nopad_encode(data: &[u8]) -> (res: String)
    requires
        encodable_length(data@.len() as int),
    ensures
        res@ == base32_nopad_text(data@),
        base32_nopad_decoded(res@) == Some(data@),
        res@.len() == (8 * data@.len() + 4) / 5,
        forall|i: int| 0 <= i < res@.len() ==> is_base32_char(#[trigger] res@[i]),
        data@.len() > 0 ==> res@[0] == base32_symbol(data@[0] as int / 8),
{
    data_encoding::BASE32_NOPAD.encode(data)
}

/// `data_encoding::BASE32_NOPAD.decode` on the bytes of `text`. Claims that
/// the result is the named decoding, and that whatever decodes encodes back
/// to the same text, which the crate documents as canonicity of this
/// encoding (no padding, trailing bits checked: "decoding followed by
/// encoding gives the initial data"). `decode_len` panics past
/// `decodable_text`.
#[verifier::external_body]
pub(crate) fn base32_nopad_decode(text: &str) -> (res: Option<Vec<u8>>)
    requires
        decodable_text(text@),
    ensures
        match res {
            Some(v) => base32_nopad_decoded(text@) == Some(v@) && base32_nopad_text(v@) == text@,
            None => base32_nopad_decoded(text@) is None,
        },
{
    data_encoding::BASE32_NOPAD.decode(text.as_bytes()).ok()
}

/// `data_encoding::BASE64.decode` on the bytes of `text`. Claims only that
/// the result is the named decoding.
#[verifier::external_body]
pub(crate) fn base64_decode(text: &str) -> (res: Option<Vec<u8>>)
    requires
        decodable_text(text@),
    ensures
        match res {
            Some(v) => base64_decoded(text@) == Some(v@),
            None => base64_decoded(text@) is None,
        },
{
    data_encoding::BASE64.decode(text.as_bytes()).ok()
}

/// Whether `c` is a lowercase hexadecimal digit.
pub open spec fn is_lower_hex(c: char) -> bool {
    ('0' <= c <= '9') || ('a' <= c <= 'f')
}

/// The lowercase hexadecimal digit for a value below 16.
pub open spec fn hex_digit(v: nat) -> char {
    if v < 10 {
        (48 + v) as char
    } else {
        (87 + v) as char
    }
}

/// Lowercase hexadecimal text of `data`: two digits per byte, high nibble
/// first.
pub open spec fn hex_lower(data: Seq<u8>) -> Seq<char>
    decreases data.len(),
{
    if data.len() == 0 {
        Seq::empty()
    } else {
        hex_lower(data.drop_last()) + seq![
            hex_digit((data.last() / 16) as nat),
            hex_digit((data.last() % 16) as nat),
        ]
    }
}

/// `data_encoding::HEXLOWER.encode`: two lowercase hex digits per byte, in
/// order, as the crate documents (RFC 4648 base16, lowercase symbols).
#[verifier::external_body]
pub(crate) fn hex_lower_encode(data: &[u8]) -> (res: String)
    requires
        encodable_length(data@.len() as int),
    ensures
        res@ == hex_lower(data@),
{
    data_encoding::HEXLOWER.encode(data)
}

} // verus!
