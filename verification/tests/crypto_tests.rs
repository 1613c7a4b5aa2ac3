use aes::Aes128;
use cbc::cipher::{BlockEncryptMut, KeyIvInit};
use warframe_api_helper::config::{get_config_for_download, get_encryption_key};
use warframe_api_helper::crypto::{
    decrypt_data, derive_key_from_password, encrypt_data, CryptoError, EncryptionKey, DEFAULT_KEY,
    IV,
};

#[test]
fn encrypt_empty_text_is_one_padding_block() {
    let c = encrypt_data("", &DEFAULT_KEY).unwrap();
    assert_eq!(
        c,
        vec![45, 233, 185, 217, 88, 217, 44, 111, 69, 135, 160, 250, 153, 123, 97, 32]
    );
}

#[test]
fn encrypt_known_answer_hello() {
    let c = encrypt_data("hello", &DEFAULT_KEY).unwrap();
    assert_eq!(
        c,
        vec![223, 75, 112, 237, 84, 67, 58, 103, 255, 233, 197, 20, 105, 89, 184, 157]
    );
}

#[test]
fn encrypt_known_answer_payload() {
    let c = encrypt_data(r#"{"accountId":"0123456789abcdef01234567"}"#, &DEFAULT_KEY).unwrap();
    assert_eq!(
        c,
        vec![
            114, 97, 95, 47, 110, 61, 218, 187, 148, 175, 248, 151, 19, 174, 183, 155, 94, 138,
            199, 102, 140, 243, 224, 219, 164, 170, 48, 69, 115, 250, 15, 130, 89, 64, 48, 68,
            247, 254, 252, 174, 171, 136, 11, 88, 114, 28, 16, 235
        ]
    );
}

#[test]
fn ciphertext_length_is_next_block_multiple() {
    assert_eq!(encrypt_data("0123456789abcdef", &DEFAULT_KEY).unwrap().len(), 32);
    assert_eq!(encrypt_data("0123456789abcde", &DEFAULT_KEY).unwrap().len(), 16);
    assert_eq!(encrypt_data("0123456789abcdefg", &DEFAULT_KEY).unwrap().len(), 32);
}

#[test]
fn decrypt_reads_back_what_encrypt_wrote() {
    for text in ["", "hello", "héllo wörld ✓", r#"{"accountId":"0123456789abcdef01234567"}"#] {
        let c = encrypt_data(text, &DEFAULT_KEY).unwrap();
        assert_eq!(decrypt_data(&c, &DEFAULT_KEY).unwrap(), text);
    }
}

#[test]
fn decrypt_rejects_truncated_data() {
    let c = encrypt_data("hello world", &DEFAULT_KEY).unwrap();
    assert_eq!(decrypt_data(&c[..15], &DEFAULT_KEY), Err(CryptoError::Decryption));
    assert_eq!(decrypt_data(&[], &DEFAULT_KEY), Err(CryptoError::Decryption));
}

#[test]
fn decrypt_with_wrong_key_fails() {
    let c = encrypt_data("hello", &DEFAULT_KEY).unwrap();
    let other = [7u8; 16];
    assert!(decrypt_data(&c, &other).is_err());
}

#[test]
fn decrypt_reports_non_utf8_plaintext() {
    let enc = cbc::Encryptor::<Aes128>::new(&DEFAULT_KEY.into(), &IV.into());
    let mut buf = [0xffu8, 0xfe, 0, 0, 0, 0, 0, 0, 0, 0, 0, 0, 0, 0, 0, 0];
    let c = enc
        .encrypt_padded_mut::<cbc::cipher::block_padding::Pkcs7>(&mut buf, 2)
        .unwrap()
        .to_vec();
    assert_eq!(decrypt_data(&c, &DEFAULT_KEY), Err(CryptoError::NotUtf8));
}

#[test]
fn derive_key_known_answer() {
    let k = derive_key_from_password("password").unwrap();
    assert_eq!(k, [252, 241, 241, 182, 47, 226, 163, 244, 30, 153, 241, 214, 55, 149, 43, 97]);
}

#[test]
fn derive_key_depends_on_password() {
    let a = derive_key_from_password("a").unwrap();
    let b = derive_key_from_password("b").unwrap();
    assert_ne!(a, b);
    assert_eq!(a, derive_key_from_password("a").unwrap());
}

#[test]
fn encryption_key_round_trips_bytes() {
    let k = EncryptionKey::from_bytes([3u8; 16]);
    assert_eq!(k.as_bytes(), &[3u8; 16]);
}

#[test]
fn default_key_without_password() {
    let k = get_encryption_key(None).unwrap();
    assert_eq!(k.as_bytes(), &DEFAULT_KEY);
    let c = get_config_for_download(None, true).unwrap();
    assert_eq!(c.encryption_key.as_bytes(), &DEFAULT_KEY);
    assert!(c.original_format);
}

#[test]
fn password_key_from_config() {
    let c = get_config_for_download(Some("password"), false).unwrap();
    assert_eq!(
        c.encryption_key.as_bytes(),
        &[252, 241, 241, 182, 47, 226, 163, 244, 30, 153, 241, 214, 55, 149, 43, 97]
    );
    assert!(!c.original_format);
}

#[test]
fn lastdata_written_with_password_needs_that_password() {
    let k = get_encryption_key(Some("secret")).unwrap();
    let c = encrypt_data("payload", k.as_bytes()).unwrap();
    assert_eq!(decrypt_data(&c, k.as_bytes()).unwrap(), "payload");
    assert!(decrypt_data(&c, &DEFAULT_KEY) != Ok("payload".to_string()));
}

#[test]
fn decrypt_rejects_empty_data() {
    assert_eq!(decrypt_data(&[], &DEFAULT_KEY), Err(CryptoError::Decryption));
}

#[test]
fn decrypt_rejects_length_not_a_block_multiple() {
    assert_eq!(decrypt_data(&[0u8; 17], &DEFAULT_KEY), Err(CryptoError::Decryption));
}
