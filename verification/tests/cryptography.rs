use aes_gcm::aead::{Aead, KeyInit};
use shades::cryptography::{
    decrypt_data, derive_key, encrypt_data, encrypt_data_with, open_envelope, HEADER_LEN,
    NONCE_LEN, SALT_LEN,
};
use shades::error::StegoError;

const SALT: [u8; 16] = [0, 1, 2, 3, 4, 5, 6, 7, 8, 9, 10, 11, 12, 13, 14, 15];
const NONCE: [u8; 12] = [0xF0, 0xF1, 0xF2, 0xF3, 0xF4, 0xF5, 0xF6, 0xF7, 0xF8, 0xF9, 0xFA, 0xFB];

#[test]
fn test_encryption_decryption() {
    let password = "test";
    let data = "Hello World!";

    let encrypted_data = encrypt_data(data, password).expect("Encryption failed.");

    let decrypted_data = decrypt_data(&encrypted_data, password).expect("Decryption failed.");

    assert_eq!(decrypted_data, data);
}

#[test]
fn envelope_is_salt_nonce_ciphertext_in_lowercase_hex() {
    let text = encrypt_data_with("Hello World!", "test", &SALT, &NONCE).expect("Encryption failed.");
    assert_eq!(SALT_LEN + NONCE_LEN, HEADER_LEN);
    assert_eq!(text.len(), 2 * (28 + 12 + 16));
    assert_eq!(&text[..32], "000102030405060708090a0b0c0d0e0f");
    assert_eq!(&text[32..56], "f0f1f2f3f4f5f6f7f8f9fafb");
    assert!(text.bytes().all(|b| b.is_ascii_digit() || (b'a'..=b'f').contains(&b)));
}

#[test]
fn sealing_with_given_salt_and_nonce_is_repeatable() {
    let first = encrypt_data_with("Hello World!", "test", &SALT, &NONCE);
    let second = encrypt_data_with("Hello World!", "test", &SALT, &NONCE);
    assert!(first.is_ok());
    assert_eq!(first, second);
    let other = encrypt_data_with("Hello World!", "tset", &SALT, &NONCE).expect("Encryption failed.");
    assert_ne!(first.unwrap()[56..], other[56..]);
}

#[test]
fn sealing_twice_gives_different_envelopes_that_open_alike() {
    let first = encrypt_data("Hello World!", "test").expect("Encryption failed.");
    let second = encrypt_data("Hello World!", "test").expect("Encryption failed.");
    assert_ne!(first, second);
    assert_ne!(first[..32], second[..32]);
    assert_ne!(first[32..56], second[32..56]);
    assert_eq!(decrypt_data(&first, "test"), Ok(String::from("Hello World!")));
    assert_eq!(decrypt_data(&second, "test"), Ok(String::from("Hello World!")));
}

#[test]
fn empty_and_non_ascii_texts_come_back() {
    for data in ["", "Grüße, 世界! 🦀", "line\nbreak\0zero"] {
        let text = encrypt_data_with(data, "pässwörd", &SALT, &NONCE).expect("Encryption failed.");
        assert_eq!(text.len(), 2 * data.len() + 88);
        assert_eq!(decrypt_data(&text, "pässwörd"), Ok(String::from(data)));
    }
}

#[test]
fn decrypt_with_another_password_fails() {
    let text = encrypt_data_with("Hello World!", "test", &SALT, &NONCE).expect("Encryption failed.");
    assert_eq!(decrypt_data(&text, "Test"), Err(StegoError::Decryption));
    assert_eq!(decrypt_data(&text, ""), Err(StegoError::Decryption));
}

#[test]
fn decrypt_of_a_changed_envelope_fails() {
    let text = encrypt_data_with("Hello World!", "test", &SALT, &NONCE).expect("Encryption failed.");
    for at in [0, 33, 60, text.len() - 1] {
        let mut bytes = text.clone().into_bytes();
        bytes[at] = if bytes[at] == b'0' { b'1' } else { b'0' };
        let changed = String::from_utf8(bytes).expect("hex text");
        assert_eq!(decrypt_data(&changed, "test"), Err(StegoError::Decryption));
    }
    let cut = &text[..text.len() - 2];
    assert_eq!(decrypt_data(cut, "test"), Err(StegoError::Decryption));
}

#[test]
fn decrypt_accepts_upper_case_hex() {
    let text = encrypt_data_with("Hello World!", "test", &SALT, &NONCE).expect("Encryption failed.");
    assert_eq!(decrypt_data(&text.to_uppercase(), "test"), Ok(String::from("Hello World!")));
}

#[test]
fn decrypt_of_a_ten_byte_envelope_is_a_format_error() {
    assert_eq!(decrypt_data("00112233445566778899", "test"), Err(StegoError::Format));
}

#[test]
fn decrypt_of_a_short_envelope_is_a_format_error() {
    assert_eq!(decrypt_data("", "test"), Err(StegoError::Format));
    assert_eq!(decrypt_data(&"ab".repeat(27), "test"), Err(StegoError::Format));
}

#[test]
fn decrypt_of_a_bare_header_is_a_decryption_error() {
    assert_eq!(decrypt_data(&"ab".repeat(28), "test"), Err(StegoError::Decryption));
    assert_eq!(decrypt_data(&"ab".repeat(43), "test"), Err(StegoError::Decryption));
}

#[test]
fn decrypt_of_text_that_is_not_hex_is_a_format_error() {
    assert_eq!(decrypt_data(&"a".repeat(57), "test"), Err(StegoError::Format));
    assert_eq!(decrypt_data(&"zz".repeat(40), "test"), Err(StegoError::Format));
    assert_eq!(decrypt_data("Hello World!", "test"), Err(StegoError::Format));
    assert_eq!(open_envelope(&[0xFF; 80], "test"), Err(StegoError::Format));
}

#[test]
fn open_envelope_reads_the_bytes_of_the_text() {
    let text = encrypt_data_with("Hello World!", "test", &SALT, &NONCE).expect("Encryption failed.");
    assert_eq!(open_envelope(text.as_bytes(), "test"), Ok(String::from("Hello World!")));
}

#[test]
fn derive_key_depends_on_password_and_salt() {
    let key = derive_key("test", &SALT).expect("key");
    assert_eq!(derive_key("test", &SALT), Ok(key));
    assert_ne!(derive_key("tset", &SALT), Ok(key));
    assert_ne!(derive_key("test", &NONCE), Ok(key));
    assert_ne!(&key[..16], &SALT[..]);
    assert_ne!(key, [0u8; 32]);
}

#[test]
fn derive_key_rejects_a_short_salt() {
    assert_eq!(derive_key("test", &[1, 2, 3, 4, 5, 6, 7]), Err(StegoError::KeyDerivation));
    assert_eq!(derive_key("test", &[]), Err(StegoError::KeyDerivation));
    assert!(derive_key("test", &[1, 2, 3, 4, 5, 6, 7, 8]).is_ok());
}

#[test]
fn every_error_has_its_message() {
    assert_eq!(StegoError::KeyDerivation.message(), "Failed to derive key from password.");
    assert_eq!(StegoError::Encryption.message(), "Encryption failed");
    assert_eq!(StegoError::Decryption.message(), "Decryption failed");
    assert_eq!(StegoError::Format.message(), "Invalid envelope format");
    assert_eq!(StegoError::NoEmbeddedData.message(), "No embedded data found");
    assert_eq!(StegoError::Capacity.message(), "Image too small for the data");
}

fn seal_by_hand(plain: &[u8], password: &str) -> String {
    let mut key = aes_gcm::Key::<aes_gcm::Aes256Gcm>::default();
    argon2::Argon2::default()
        .hash_password_into(password.as_bytes(), &SALT, &mut key)
        .expect("key");
    let ciphertext = aes_gcm::Aes256Gcm::new(&key)
        .encrypt(aes_gcm::Nonce::from_slice(&NONCE), plain)
        .expect("ciphertext");
    let mut envelope = Vec::new();
    envelope.extend_from_slice(&SALT);
    envelope.extend_from_slice(&NONCE);
    envelope.extend_from_slice(&ciphertext);
    hex::encode(&envelope)
}

#[test]
fn envelope_sealed_by_hand_opens() {
    let text = seal_by_hand(b"Hello World!", "test");
    assert_eq!(encrypt_data_with("Hello World!", "test", &SALT, &NONCE), Ok(text.clone()));
    assert_eq!(decrypt_data(&text, "test"), Ok(String::from("Hello World!")));
}

#[test]
fn derive_key_is_argon2id_with_default_parameters() {
    let mut key = [0u8; 32];
    argon2::Argon2::default()
        .hash_password_into(b"test", &SALT, &mut key)
        .expect("key");
    assert_eq!(derive_key("test", &SALT), Ok(key));
}

#[test]
fn authentic_content_that_is_no_text_is_a_decryption_error() {
    let text = seal_by_hand(&[0x48, 0x69, 0xFF, 0xFE], "test");
    assert_eq!(decrypt_data(&text, "test"), Err(StegoError::Decryption));
}
