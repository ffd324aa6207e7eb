use nanopass::cipher::{cbc_decrypt_buffer, cbc_encrypt_buffer, cbc_mac, take_block, xor_blocks};
use nanopass::codec::{
    append_bytes, decode_encrypted, decode_plain, encode_encrypted, encode_plain, same_block,
};
use nanopass::password::{ArrayString, PasswordItem};
use nanopass::status::Error;

fn sample() -> PasswordItem {
    let mut item = PasswordItem::new();
    item.name = ArrayString::from_bytes(b"site1");
    item.login = ArrayString::from_bytes(b"user1");
    item.pass = ArrayString::from_bytes(b"pw1");
    item
}

fn same_item(a: &PasswordItem, b: &PasswordItem) -> bool {
    a.name.bytes() == b.name.bytes()
        && a.login.bytes() == b.login.bytes()
        && a.pass.bytes() == b.pass.bytes()
}

fn hex(s: &str) -> Vec<u8> {
    (0..s.len() / 2).map(|i| u8::from_str_radix(&s[2 * i..2 * i + 2], 16).unwrap()).collect()
}

fn key_fips() -> [u8; 32] {
    let mut key = [0u8; 32];
    for i in 0..32 {
        key[i] = i as u8;
    }
    key
}

#[test]
fn aes256_single_block_known_answer() {
    let plain = hex("00112233445566778899aabbccddeeff");
    let out = cbc_encrypt_buffer(&key_fips(), &[0u8; 16], &plain);
    assert_eq!(out, hex("8ea2b7ca516745bfeafc49904b496089"));
}

#[test]
fn aes256_single_block_decrypts() {
    let cipher = hex("8ea2b7ca516745bfeafc49904b496089");
    let out = cbc_decrypt_buffer(&key_fips(), &[0u8; 16], &cipher);
    assert_eq!(out, hex("00112233445566778899aabbccddeeff"));
}

#[test]
fn cbc_chains_blocks() {
    let key: [u8; 32] =
        hex("603deb1015ca71be2b73aef0857d77811f352c073b6108d72d9810a30914dff4").try_into().unwrap();
    let iv: [u8; 16] = hex("000102030405060708090a0b0c0d0e0f").try_into().unwrap();
    let plain = hex("6bc1bee22e409f96e93d7e117393172aae2d8a571e03ac9c9eb76fac45af8e51");
    let expected = hex("f58c4c04d6e5f1ba779eabfb5f7bfbd69cfc4e967edb808d679f777bc6702c7d");
    let out = cbc_encrypt_buffer(&key, &iv, &plain);
    assert_eq!(out, expected);
    assert_eq!(cbc_decrypt_buffer(&key, &iv, &expected), plain);
    assert_eq!(cbc_mac(&key, &iv, &plain).to_vec(), expected[16..].to_vec());
}

#[test]
fn cbc_round_trip_uses_iv() {
    let key = [7u8; 32];
    let data = [0x5au8; 96];
    let one = cbc_encrypt_buffer(&key, &[1u8; 16], &data);
    let two = cbc_encrypt_buffer(&key, &[2u8; 16], &data);
    assert_eq!(one.len(), 96);
    assert_ne!(one, two);
    assert_ne!(one[..16], one[16..32]);
    assert_eq!(cbc_decrypt_buffer(&key, &[1u8; 16], &one), data.to_vec());
    assert_ne!(cbc_decrypt_buffer(&key, &[2u8; 16], &one), data.to_vec());
}

#[test]
fn cbc_of_nothing_is_nothing() {
    assert!(cbc_encrypt_buffer(&[0u8; 32], &[0u8; 16], &[]).is_empty());
    assert!(cbc_decrypt_buffer(&[0u8; 32], &[0u8; 16], &[]).is_empty());
}

#[test]
fn block_helpers() {
    let mut data = [0u8; 48];
    for i in 0..48 {
        data[i] = i as u8;
    }
    let b = take_block(&data, 1);
    assert_eq!(b[0], 16);
    assert_eq!(b[15], 31);
    let x = xor_blocks(&[0xf0u8; 16], &[0x3cu8; 16]);
    assert_eq!(x, [0xccu8; 16]);
    assert!(same_block(&x, &[0xccu8; 16]));
    let mut y = x;
    y[15] ^= 1;
    assert!(!same_block(&x, &y));
    let mut out = vec![1u8];
    append_bytes(&mut out, &[2, 3]);
    assert_eq!(out, vec![1, 2, 3]);
}

#[test]
fn plain_form_is_three_fields() {
    let out = encode_plain(&sample());
    assert_eq!(out.len(), 96);
    assert_eq!(&out[..5], b"site1");
    assert_eq!(out[5..32], [0u8; 27]);
    assert_eq!(&out[32..37], b"user1");
    assert_eq!(&out[64..67], b"pw1");
    assert_eq!(out[67..], [0u8; 29]);
}

#[test]
fn plain_round_trip() {
    let item = sample();
    let back = decode_plain(&encode_plain(&item));
    assert!(same_item(&back, &item));
    let full = {
        let mut item = PasswordItem::new();
        item.name = ArrayString::from_bytes(&[b'n'; 32]);
        item.login = ArrayString::from_bytes(&[b'l'; 32]);
        item.pass = ArrayString::from_bytes(&[b'p'; 32]);
        item
    };
    assert!(same_item(&decode_plain(&encode_plain(&full)), &full));
    let empty = PasswordItem::new();
    assert!(same_item(&decode_plain(&encode_plain(&empty)), &empty));
}

#[test]
fn envelope_layout() {
    let key = [9u8; 32];
    let nonce = [3u8; 16];
    let item = sample();
    let out = encode_encrypted(&item, &key, &nonce);
    assert_eq!(out.len(), 128);
    assert_eq!(out[..16], nonce);
    let ciphertext = cbc_encrypt_buffer(&key, &nonce, &encode_plain(&item));
    assert_eq!(out[16..112], ciphertext[..]);
    let again = cbc_encrypt_buffer(&key, &nonce, &ciphertext);
    assert_eq!(out[112..], again[80..]);
    assert_ne!(out[16..112], encode_plain(&item)[..]);
}

#[test]
fn encrypted_round_trip() {
    let key = [0x42u8; 32];
    let item = sample();
    for n in 0..4u8 {
        let out = encode_encrypted(&item, &key, &[n; 16]);
        let back = decode_encrypted(&out, &key).unwrap();
        assert!(same_item(&back, &item));
    }
}

#[test]
fn any_flipped_bit_of_ciphertext_or_tag_is_detected() {
    let key = [0x42u8; 32];
    let out = encode_encrypted(&sample(), &key, &[5u8; 16]);
    for at in 16..128 {
        for bit in 0..8 {
            let mut tampered = out.clone();
            tampered[at] ^= 1 << bit;
            match decode_encrypted(&tampered, &key) {
                Err(e) => assert_eq!(e, Error::DecryptFailed),
                Ok(_) => panic!("accepted a change at byte {} bit {}", at, bit),
            }
        }
    }
}

#[test]
fn wrong_key_is_detected() {
    let out = encode_encrypted(&sample(), &[1u8; 32], &[5u8; 16]);
    assert!(matches!(decode_encrypted(&out, &[2u8; 32]), Err(Error::DecryptFailed)));
}

#[test]
fn work_buffer_holds_plain_form() {
    let item = sample();
    let buffer = nanopass::codec::lay_out(&item);
    assert_eq!(buffer.len(), 96);
    assert_eq!(buffer.as_slice(), &encode_plain(&item)[..]);
}
