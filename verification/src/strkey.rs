//! Minimal Stellar "strkey" codec: turns a `G...` address into the raw
//! 32-byte ed25519 public key it encodes, and back.
//!
//! An address is the base32 (no padding) text of a 35-byte payload: the
//! version byte, the 32 key bytes, and a CRC16/XMODEM checksum of those 33
//! bytes in little-endian order.

use vstd::prelude::*;
use crate::codec::{base32_nopad_decode, base32_nopad_decoded, base32_nopad_encode, base32_nopad_text, decodable_text, is_base32_char};
use crate::text::{decimal_text, push_decimal, string_of};

verus! {

/// Version byte of an ed25519 public key (`6 << 3`); it encodes to the
/// leading `'G'` of the address.
pub const ED25519_PUBLIC_KEY_VERSION_BYTE: u8 = 48u8;

/// One shift of the CRC register: poly 0x1021, no reflection.
pub open spec fn crc16_shift(crc: u16) -> u16 {
    if crc & 0x8000u16 != 0u16 {
        (crc << 1u16) ^ 0x1021u16
    } else {
        crc << 1u16
    }
}

/// `n` shifts of the CRC register.
pub open spec fn crc16_shift_n(crc: u16, n: nat) -> u16
    decreases n,
{
    if n == 0 {
        crc
    } else {
        crc16_shift(crc16_shift_n(crc, (n - 1) as nat))
    }
}

/// Feeding one byte into the CRC register.
pub open spec fn crc16_feed(crc: u16, byte: u8) -> u16 {
    crc16_shift_n(crc ^ ((byte as u16) << 8u16), 8)
}

/// CRC16/XMODEM of `data`: init 0x0000, no reflection, no xor-out.
pub open spec fn crc16_xmodem_spec(data: Seq<u8>) -> u16
    decreases data.len(),
{
    if data.len() == 0 {
        0u16
    } else {
        crc16_feed(crc16_xmodem_spec(data.drop_last()), data.last())
    }
}

/// The two little-endian bytes of a 16-bit value.
pub open spec fn le_bytes(v: u16) -> Seq<u8> {
    seq![(v % 256) as u8, (v / 256) as u8]
}

/// The 35-byte payload that an address encodes for `pubkey`.
pub open spec fn strkey_payload(pubkey: Seq<u8>) -> Seq<u8> {
    let body = seq![ED25519_PUBLIC_KEY_VERSION_BYTE] + pubkey;
    body + le_bytes(crc16_xmodem_spec(body))
}

/// The address of `pubkey`.
pub open spec fn strkey_text(pubkey: Seq<u8>) -> Seq<char> {
    base32_nopad_text(strkey_payload(pubkey))
}

/// The error text for a payload of the wrong length.
pub open spec fn wrong_length_message(len: nat) -> Seq<char> {
    "expected a 35-byte strkey payload, got "@ + decimal_text(len)
}

/// What a decoded payload `raw` gives: the 32 key bytes, or the error text.
pub open spec fn payload_decoding(raw: Seq<u8>) -> Result<Seq<u8>, Seq<char>> {
    if raw.len() != 35 {
        Err(wrong_length_message(raw.len()))
    } else if raw[0] != ED25519_PUBLIC_KEY_VERSION_BYTE {
        Err("address is not an ed25519 public key (wrong version byte)"@)
    } else if crc16_xmodem_spec(raw.take(33)) as int != raw[33] as int + 256 * (raw[34] as int) {
        Err("address checksum mismatch"@)
    } else {
        Ok(raw.subrange(1, 33))
    }
}

/// What decoding `address` gives: the 32 key bytes, or the error text.
pub open spec fn strkey_decoding(address: Seq<char>) -> Result<Seq<u8>, Seq<char>> {
    match base32_nopad_decoded(address) {
        None => Err("address is not valid base32"@),
        Some(raw) => payload_decoding(raw),
    }
}

/// CRC16/XMODEM: poly 0x1021, init 0x0000, no reflection, no xor-out.
/// Stellar strkey uses this exact variant for its trailing checksum.
pub fn crc16_xmodem(data: &[u8]) -> (crc: u16)
    ensures
        crc == crc16_xmodem_spec(data@),
{
    let mut crc: u16 = 0x0000;
    let mut i: usize = 0;
    while i < data.len()
        invariant
            i <= data@.len(),
            crc == crc16_xmodem_spec(data@.take(i as int)),
        decreases data@.len() - i,
    {
        let byte = data[i];
        let start: u16 = crc ^ ((byte as u16) << 8u16);
        crc = start;
        let mut k: u8 = 0;
        while k < 8
            invariant
                k <= 8,
                crc == crc16_shift_n(start, k as nat),
            decreases 8 - k,
        {
            crc = if crc & 0x8000u16 != 0 {
                (crc << 1u16) ^ 0x1021u16
            } else {
                crc << 1u16
            };
            k = k + 1;
        }
        proof {
            assert(data@.take(i + 1).drop_last() =~= data@.take(i as int));
            assert(data@.take(i + 1).last() == byte);
        }
        i = i + 1;
    }
    assert(data@.take(data@.len() as int) =~= data@);
    crc
}

/// The address (`G...`) that encodes the ed25519 public key `pubkey`.
pub fn encode_stellar_public_key(pubkey: &[u8; 32]) -> (address: String)
    ensures
        address@ == strkey_text(pubkey@),
        strkey_decoding(address@) == Ok::<Seq<u8>, Seq<char>>(pubkey@),
        address@.len() == 56,
        address@[0] == 'G',
        forall|i: int| 0 <= i < 56 ==> is_base32_char(#[trigger] address@[i]),
{
    let mut payload: Vec<u8> = Vec::with_capacity(35);
    payload.push(ED25519_PUBLIC_KEY_VERSION_BYTE);
    let mut i: usize = 0;
    while i < 32
        invariant
            i <= 32,
            payload@ =~= seq![ED25519_PUBLIC_KEY_VERSION_BYTE] + pubkey@.take(i as int),
        decreases 32 - i,
    {
        payload.push(pubkey[i]);
        i = i + 1;
    }
    assert(pubkey@.take(32) =~= pubkey@);
    let ghost body = payload@;
    let checksum = crc16_xmodem(payload.as_slice());
    payload.push((checksum % 256) as u8);
    payload.push((checksum / 256) as u8);
    assert(payload@ =~= strkey_payload(pubkey@));
    let address = base32_nopad_encode(payload.as_slice());
    proof {
        let raw = strkey_payload(pubkey@);
        assert(raw.take(33) =~= body);
        assert(raw.subrange(1, 33) =~= pubkey@);
    }
    address
}

/// The 32-byte ed25519 public key that `address` encodes, or why it does
/// not encode one: not base32, not 35 bytes, wrong version byte, or a
/// checksum that does not match. Only canonical addresses are accepted.
pub fn decode_stellar_public_key(address: &str) -> (res: Result<[u8; 32], String>)
    requires
        decodable_text(address@),
    ensures
        match res {
            Ok(key) => strkey_decoding(address@) == Ok::<Seq<u8>, Seq<char>>(key@),
            Err(msg) => strkey_decoding(address@) == Err::<Seq<u8>, Seq<char>>(msg@),
        },
        res is Ok ==> address@ == strkey_text(res->Ok_0@),
{
    let raw = match base32_nopad_decode(address) {
        Some(raw) => raw,
        None => return Err(string_of("address is not valid base32")),
    };
    let res = decode_strkey_payload(raw.as_slice());
    proof {
        if res is Ok {
            assert(raw@ =~= strkey_payload(res->Ok_0@));
        }
    }
    res
}

/// The key that a decoded 35-byte strkey payload carries, once its length,
/// version byte and checksum are checked.
pub fn decode_strkey_payload(raw: &[u8]) -> (res: Result<[u8; 32], String>)
    ensures
        match res {
            Ok(key) => payload_decoding(raw@) == Ok::<Seq<u8>, Seq<char>>(key@),
            Err(msg) => payload_decoding(raw@) == Err::<Seq<u8>, Seq<char>>(msg@),
        },
        res is Ok ==> raw@ == strkey_payload(res->Ok_0@),
{
    if raw.len() != 35 {
        let mut msg = string_of("expected a 35-byte strkey payload, got ");
        push_decimal(&mut msg, raw.len() as u64);
        return Err(msg);
    }
    if raw[0] != ED25519_PUBLIC_KEY_VERSION_BYTE {
        return Err(string_of("address is not an ed25519 public key (wrong version byte)"));
    }
    let expected_checksum: u16 = (raw[33] as u16) + 256u16 * (raw[34] as u16);
    let head = slice_prefix(raw, 33);
    let actual_checksum = crc16_xmodem(head);
    if actual_checksum != expected_checksum {
        return Err(string_of("address checksum mismatch"));
    }
    let mut pubkey = [0u8; 32];
    let mut i: usize = 0;
    while i < 32
        invariant
            i <= 32,
            raw@.len() == 35,
            forall|j: int| 0 <= j < i ==> pubkey@[j] == raw@[j + 1],
        decreases 32 - i,
    {
        pubkey[i] = raw[i + 1];
        i = i + 1;
    }
    proof {
        assert(pubkey@ =~= raw@.subrange(1, 33));
        let body = raw@.take(33);
        assert(body =~= seq![ED25519_PUBLIC_KEY_VERSION_BYTE] + pubkey@);
        assert(raw@ =~= strkey_payload(pubkey@));
    }
    Ok(pubkey)
}

/// Bytewise xor of two sequences of equal length.
pub open spec fn xor_bytes(a: Seq<u8>, b: Seq<u8>) -> Seq<u8> {
    Seq::new(a.len(), |i: int| a[i] ^ b[i])
}

proof fn lemma_shift_linear(a: u16, b: u16)
    by (bit_vector)
    ensures
        crc16_shift(a ^ b) == crc16_shift(a) ^ crc16_shift(b),
        a != 0u16 ==> crc16_shift(a) != 0u16,
{
}

proof fn lemma_shift_n_linear(a: u16, b: u16, n: nat)
    ensures
        crc16_shift_n(a ^ b, n) == crc16_shift_n(a, n) ^ crc16_shift_n(b, n),
        a != 0u16 ==> crc16_shift_n(a, n) != 0u16,
    decreases n,
{
    if n > 0 {
        lemma_shift_n_linear(a, b, (n - 1) as nat);
        lemma_shift_linear(crc16_shift_n(a, (n - 1) as nat), crc16_shift_n(b, (n - 1) as nat));
    }
}

proof fn lemma_feed_mix(a: u16, b: u16, x: u8, y: u8)
    by (bit_vector)
    ensures
        (a ^ b) ^ (((x ^ y) as u16) << 8u16) == (a ^ ((x as u16) << 8u16)) ^ (b ^ ((y as u16) << 8u16)),
        x != 0u8 ==> (0u16 ^ ((x as u16) << 8u16)) != 0u16,
        0u16 ^ ((0u8 as u16) << 8u16) == 0u16,
        a ^ ((0u8 as u16) << 8u16) == a,
{
}

proof fn lemma_shift_zero()
    by (bit_vector)
    ensures
        crc16_shift(0u16) == 0u16,
{
}

proof fn lemma_shift_n_zero(n: nat)
    ensures
        crc16_shift_n(0u16, n) == 0u16,
    decreases n,
{
    lemma_shift_zero();
    if n > 0 {
        lemma_shift_n_zero((n - 1) as nat);
    }
}

/// The CRC is linear: the CRC of a bytewise xor is the xor of the CRCs.
pub proof fn lemma_crc16_linear(s: Seq<u8>, t: Seq<u8>)
    requires
        s.len() == t.len(),
    ensures
        crc16_xmodem_spec(xor_bytes(s, t)) == crc16_xmodem_spec(s) ^ crc16_xmodem_spec(t),
    decreases s.len(),
{
    if s.len() > 0 {
        let x = xor_bytes(s, t);
        assert(x.drop_last() =~= xor_bytes(s.drop_last(), t.drop_last()));
        lemma_crc16_linear(s.drop_last(), t.drop_last());
        let a = crc16_xmodem_spec(s.drop_last());
        let b = crc16_xmodem_spec(t.drop_last());
        assert(x.last() == s.last() ^ t.last());
        lemma_feed_mix(a, b, s.last(), t.last());
        lemma_shift_n_linear(a ^ ((s.last() as u16) << 8u16), b ^ ((t.last() as u16) << 8u16), 8);
        let big_a = a ^ ((s.last() as u16) << 8u16);
        let big_b = b ^ ((t.last() as u16) << 8u16);
        assert(crc16_xmodem_spec(x) == crc16_feed(a ^ b, s.last() ^ t.last()));
        assert(crc16_feed(a ^ b, s.last() ^ t.last()) == crc16_shift_n(big_a ^ big_b, 8));
        assert(crc16_feed(a, s.last()) == crc16_shift_n(big_a, 8));
        assert(crc16_feed(b, t.last()) == crc16_shift_n(big_b, 8));
    } else {
        assert(xor_bytes(s, t) =~= Seq::<u8>::empty());
        assert(0u16 ^ 0u16 == 0u16) by (bit_vector);
    }
}

/// The two big-endian bytes of a 16-bit value.
pub open spec fn be_bytes(v: u16) -> Seq<u8> {
    seq![(v / 256) as u8, (v % 256) as u8]
}

/// Eight shifts of a register that holds only a low byte move that byte
/// to the high half with no polynomial reduction.
proof fn lemma_shift8_of_low_byte(v: u16)
    by (bit_vector)
    requires
        v < 256u16,
    ensures
        crc16_shift(crc16_shift(crc16_shift(crc16_shift(crc16_shift(crc16_shift(crc16_shift(
            crc16_shift(v),
        ))))))) == v << 8u16,
{
}

/// Feeding the high byte of a register into it leaves its low byte, and
/// feeding that low byte next clears it.
proof fn lemma_feed_high_byte(c: u16, hi: u8, lo: u8)
    by (bit_vector)
    requires
        hi as u16 == c / 256u16,
        lo as u16 == c % 256u16,
    ensures
        c ^ ((hi as u16) << 8u16) == c % 256u16,
        ((c % 256u16) << 8u16) ^ ((lo as u16) << 8u16) == 0u16,
{
}

/// Appending the big-endian CRC of the data to the data gives a CRC of
/// zero: the receiver's check of a CRC16/XMODEM frame.
pub proof fn lemma_crc16_residue_zero(data: Seq<u8>)
    ensures
        crc16_xmodem_spec(data + be_bytes(crc16_xmodem_spec(data))) == 0u16,
{
    let c = crc16_xmodem_spec(data);
    let hi = (c / 256) as u8;
    let lo = (c % 256) as u8;
    let d1 = data.push(hi);
    let d2 = d1.push(lo);
    assert(data + be_bytes(c) =~= d2);
    assert(d2.drop_last() =~= d1);
    assert(d1.drop_last() =~= data);
    lemma_feed_high_byte(c, hi, lo);
    let v = c % 256;
    reveal_with_fuel(crc16_shift_n, 9);
    lemma_shift8_of_low_byte(v);
    assert(crc16_xmodem_spec(d1) == crc16_feed(c, hi));
    assert(crc16_feed(c, hi) == v << 8u16);
    lemma_shift_n_zero(8);
    assert(crc16_xmodem_spec(d2) == crc16_feed(v << 8u16, lo));
}

/// A sequence that is zero but for one nonzero byte.
pub open spec fn single_error(len: nat, pos: int, e: u8) -> Seq<u8> {
    Seq::new(len, |i: int| if i == pos { e } else { 0u8 })
}

/// A single nonzero byte anywhere gives a nonzero CRC.
proof fn lemma_single_error_crc_nonzero(len: nat, pos: int, e: u8)
    requires
        0 <= pos < len,
        e != 0,
    ensures
        crc16_xmodem_spec(single_error(len, pos, e)) != 0,
        forall|k: nat| k <= pos ==> crc16_xmodem_spec(#[trigger] single_error(len, pos, e).take(k as int)) == 0,
    decreases len,
{
    let s = single_error(len, pos, e);
    assert forall|k: nat| k <= pos implies crc16_xmodem_spec(#[trigger] s.take(k as int)) == 0 by {
        lemma_zero_prefix_crc(s, k);
    }
    if pos == len - 1 {
        assert(s.drop_last() =~= s.take(pos));
        assert(s.last() == e);
        lemma_feed_mix(0u16, 0u16, e, 0u8);
        lemma_shift_n_linear(0u16 ^ ((e as u16) << 8u16), 0u16, 8);
    } else {
        assert(s.drop_last() =~= single_error((len - 1) as nat, pos, e));
        assert(s.last() == 0u8);
        lemma_single_error_crc_nonzero((len - 1) as nat, pos, e);
        let c = crc16_xmodem_spec(s.drop_last());
        lemma_feed_mix(c, 0u16, 0u8, 0u8);
        lemma_shift_n_linear(c, 0u16, 8);
    }
}

/// A prefix of zero bytes has CRC 0.
proof fn lemma_zero_prefix_crc(s: Seq<u8>, k: nat)
    requires
        k <= s.len(),
        forall|i: int| 0 <= i < k ==> s[i] == 0u8,
    ensures
        crc16_xmodem_spec(s.take(k as int)) == 0,
    decreases k,
{
    if k > 0 {
        assert(s.take(k as int).drop_last() =~= s.take(k - 1));
        lemma_zero_prefix_crc(s, (k - 1) as nat);
        lemma_feed_mix(0u16, 0u16, 0u8, 0u8);
        lemma_shift_n_zero(8);
        assert(s.take(k as int).last() == 0u8);
    }
}

/// A strkey payload with any one byte corrupted is rejected: a changed
/// version byte is refused as such, and any other change breaks the
/// checksum.
pub proof fn lemma_corrupted_payload_rejected(pubkey: Seq<u8>, pos: int, e: u8)
    requires
        pubkey.len() == 32,
        0 <= pos < 35,
        e != 0,
    ensures
        payload_decoding(strkey_payload(pubkey).update(pos, strkey_payload(pubkey)[pos] ^ e)) is Err,
{
    let p = strkey_payload(pubkey);
    let q = p.update(pos, p[pos] ^ e);
    let old_byte = p[pos];
    assert(old_byte ^ e != old_byte) by (bit_vector)
        requires
            e != 0u8,
    ;
    let body = seq![ED25519_PUBLIC_KEY_VERSION_BYTE] + pubkey;
    assert(p.take(33) =~= body);
    let crc = crc16_xmodem_spec(body);
    assert(p[33] as int + 256 * (p[34] as int) == crc as int);
    if 1 <= pos < 33 {
        let err = single_error(33, pos, e);
        assert(xor_bytes(q.take(33), body) =~= err) by {
            assert forall|i: int| 0 <= i < 33 implies #[trigger] xor_bytes(q.take(33), body)[i] == err[i] by {
                if i == pos {
                    let v = p[pos];
                    assert((v ^ e) ^ v == e) by (bit_vector);
                } else {
                    let v = p[i];
                    assert(v ^ v == 0u8) by (bit_vector);
                }
            }
        }
        lemma_crc16_linear(q.take(33), body);
        lemma_single_error_crc_nonzero(33, pos, e);
        let c1 = crc16_xmodem_spec(q.take(33));
        let c2 = crc16_xmodem_spec(err);
        assert(c1 ^ crc == c2);
        assert(c2 != 0u16 ==> c1 != crc) by (bit_vector)
            requires
                c1 ^ crc == c2,
        ;
        assert(q[33] == p[33] && q[34] == p[34]);
    } else if pos >= 33 {
        assert(q.take(33) =~= body);
    }
}

/// The first `n` elements of a slice.
fn slice_prefix(s: &[u8], n: usize) -> (res: &[u8])
    requires
        n <= s@.len(),
    ensures
        res@ == s@.take(n as int),
{
    vstd::slice::slice_subrange(s, 0, n)
}

} // verus!
