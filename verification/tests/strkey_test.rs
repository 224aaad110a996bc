use zenith_backend::strkey::{crc16_xmodem, decode_stellar_public_key, decode_strkey_payload, encode_stellar_public_key};

#[test]
fn round_trips_through_encode_and_decode() {
    let pubkey: [u8; 32] = std::array::from_fn(|i| i as u8);
    let address = encode_stellar_public_key(&pubkey);
    assert!(address.starts_with('G'));
    let decoded = decode_stellar_public_key(&address).unwrap();
    assert_eq!(decoded, pubkey);
}

#[test]
fn rejects_flipped_checksum_byte() {
    let pubkey = [7u8; 32];
    let mut address = encode_stellar_public_key(&pubkey);
    // Flip the last character to corrupt the checksum without changing length.
    let last = address.pop().unwrap();
    address.push(if last == 'A' { 'B' } else { 'A' });
    assert!(decode_stellar_public_key(&address).is_err());
}

#[test]
fn rejects_wrong_length() {
    assert!(decode_stellar_public_key("GAAA").is_err());
}

#[test]
fn crc16_xmodem_matches_the_standard_check_value() {
    assert_eq!(crc16_xmodem(b"123456789"), 0x31C3);
    assert_eq!(crc16_xmodem(b""), 0);
}

#[test]
fn encodes_the_all_zero_key_to_the_well_known_address() {
    let address = encode_stellar_public_key(&[0u8; 32]);
    assert_eq!(address, "GAAAAAAAAAAAAAAAAAAAAAAAAAAAAAAAAAAAAAAAAAAAAAAAAAAAAWHF");
    assert_eq!(address.len(), 56);
    assert_eq!(decode_stellar_public_key(&address).unwrap(), [0u8; 32]);
}

#[test]
fn reports_each_kind_of_bad_address() {
    assert_eq!(
        decode_stellar_public_key("not-real").unwrap_err(),
        "address is not valid base32"
    );
    // "GAAA" decodes to two bytes.
    assert_eq!(
        decode_stellar_public_key("GAAA").unwrap_err(),
        "expected a 35-byte strkey payload, got 2"
    );
    let mut address = encode_stellar_public_key(&[9u8; 32]);
    let last = address.pop().unwrap();
    address.push(if last == 'A' { 'B' } else { 'A' });
    let err = decode_stellar_public_key(&address).unwrap_err();
    assert!(err == "address checksum mismatch" || err == "address is not valid base32", "{err}");
}

#[test]
fn payload_checks_version_byte_then_checksum() {
    let mut payload = vec![48u8];
    payload.extend_from_slice(&[5u8; 32]);
    let crc = crc16_xmodem(&payload);
    payload.push((crc % 256) as u8);
    payload.push((crc / 256) as u8);
    assert_eq!(decode_strkey_payload(&payload).unwrap(), [5u8; 32]);

    let mut wrong_version = payload.clone();
    wrong_version[0] = 49;
    assert_eq!(
        decode_strkey_payload(&wrong_version).unwrap_err(),
        "address is not an ed25519 public key (wrong version byte)"
    );

    let mut wrong_crc = payload.clone();
    wrong_crc[34] ^= 1;
    assert_eq!(decode_strkey_payload(&wrong_crc).unwrap_err(), "address checksum mismatch");

    let mut corrupted_key = payload.clone();
    corrupted_key[10] ^= 0x40;
    assert_eq!(decode_strkey_payload(&corrupted_key).unwrap_err(), "address checksum mismatch");

    assert_eq!(
        decode_strkey_payload(&payload[..34]).unwrap_err(),
        "expected a 35-byte strkey payload, got 34"
    );
}

#[test]
fn decoding_accepts_only_the_canonical_address() {
    let pubkey = [200u8; 32];
    let address = encode_stellar_public_key(&pubkey);
    // Lowercase is not part of the base32 alphabet used here.
    assert!(decode_stellar_public_key(&address.to_lowercase()).is_err());
    assert_eq!(decode_stellar_public_key(&address).unwrap(), pubkey);
}

#[test]
fn addresses_are_fifty_six_characters_starting_with_g() {
    for seed in [0u8, 1, 0x7f, 0xff] {
        let address = encode_stellar_public_key(&[seed; 32]);
        assert_eq!(address.len(), 56);
        assert!(address.starts_with('G'));
    }
}

#[test]
fn appending_the_big_endian_crc_gives_a_zero_crc() {
    for data in [&b"123456789"[..], &b""[..], &[0x30u8; 33][..], &[0xffu8, 0x00, 0x7f][..]] {
        let c = crc16_xmodem(data);
        let framed = [data, &c.to_be_bytes()[..]].concat();
        assert_eq!(crc16_xmodem(&framed), 0);
    }
}
