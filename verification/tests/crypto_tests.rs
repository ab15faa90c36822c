use aes::cipher::{BlockEncryptMut, KeyIvInit};
use m3u8_downloader_core::crypto::{decrypt_aes128, CryptoError};
use m3u8_downloader_core::downloader::decode_segment;
use m3u8_downloader_core::parser::KeyInfo;

fn encrypt(plain: &[u8], key: &[u8], iv: &[u8]) -> Vec<u8> {
    let mut buf = vec![0u8; plain.len() + 16];
    buf[..plain.len()].copy_from_slice(plain);
    let enc = cbc::Encryptor::<aes::Aes128>::new_from_slices(key, iv).unwrap();
    let n = enc
        .encrypt_padded_mut::<aes::cipher::block_padding::Pkcs7>(&mut buf, plain.len())
        .unwrap()
        .len();
    buf.truncate(n);
    buf
}

#[test]
fn decrypts_what_was_encrypted() {
    let key = [7u8; 16];
    let iv = [3u8; 16];
    let plain = b"transport stream bytes".to_vec();
    let cipher = encrypt(&plain, &key, &iv);
    assert_ne!(cipher, plain);
    assert_eq!(decrypt_aes128(&cipher, &key, &iv).unwrap(), plain);
}

#[test]
fn key_and_iv_lengths_are_checked() {
    assert!(matches!(decrypt_aes128(&[0u8; 16], &[0u8; 15], &[0u8; 16]), Err(CryptoError::InvalidKeyLength)));
    assert!(matches!(decrypt_aes128(&[0u8; 16], &[0u8; 16], &[0u8; 17]), Err(CryptoError::InvalidIvLength)));
}

#[test]
fn partial_block_fails_to_decrypt() {
    match decrypt_aes128(&[1u8; 20], &[0u8; 16], &[0u8; 16]) {
        Err(CryptoError::DecryptError(m)) => assert_eq!(m, "Unpad Error"),
        other => panic!("unexpected: {:?}", other),
    }
}

#[test]
fn segments_are_decoded_only_when_encrypted() {
    let data = vec![1u8, 2, 3];
    assert_eq!(decode_segment(data.clone(), &None, &[]).unwrap(), data);
    let ki = KeyInfo { uri: "k".into(), key: None, iv: None };
    assert!(matches!(decode_segment(data.clone(), &Some(ki), &[0u8; 16]), Err(CryptoError::InvalidIvLength)));
    let key = [9u8; 16];
    let iv = vec![4u8; 16];
    let cipher = encrypt(&data, &key, &iv);
    let ki = KeyInfo { uri: "k".into(), key: None, iv: Some(iv) };
    assert_eq!(decode_segment(cipher, &Some(ki), &key).unwrap(), data);
}
