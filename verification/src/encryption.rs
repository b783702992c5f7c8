//! The legacy envelope, kept for texts that were sealed with it: the key is
//! the SHA-256 digest of the password, without a salt, and the cipher is
//! AES-256 in CBC mode with PKCS#7 padding, without an integrity tag.
//!
//! This scheme is weaker than the one in [`crate::cryptography`] and is left
//! as it is, since changing it would make older envelopes unreadable: it does
//! not detect tampering, and opening under a wrong password fails only where
//! the padding or the content happens to be wrong.
//!
//! An envelope is `iv (16 bytes) ‖ ciphertext`.

use crate::cryptography::{text_bytes_outcome, text_outcome};
use crate::error::StegoError;
use crate::hextext::{hex_bytes, hex_text, is_hex_text, lemma_hex_text_round_trip};
use crate::trusted::{
    aes256cbc_decrypt, aes256cbc_encrypt, aes256cbc_open, aes256cbc_seal, hex_decode, hex_encode,
    random_iv, sha256, sha256_digest, string_from_utf8,
};
use vstd::prelude::*;
use vstd::slice::slice_subrange;
use vstd::utf8::{
    decode_utf8, encode_utf8, encode_utf8_decode_utf8, encode_utf8_valid_utf8, valid_utf8,
};

verus! {

/// The length of the initialisation vector at the head of an envelope.
pub const IV_LEN: usize = 16;

/// The hexadecimal text of the envelope that seals `data` under `password`
/// with the given initialisation vector.
pub open spec fn sealed(data: Seq<u8>, password: Seq<u8>, iv: Seq<u8>) -> Result<
    Seq<u8>,
    StegoError,
> {
    match aes256cbc_seal(sha256_digest(password), iv, data) {
        None => Err(StegoError::Encryption),
        Some(ciphertext) => Ok(hex_text(iv + ciphertext)),
    }
}

/// The text that opening the hexadecimal envelope `text` under `password`
/// gives; every failure is a decryption failure.
pub open spec fn opened(text: Seq<u8>, password: Seq<u8>) -> Result<Seq<char>, StegoError> {
    if !is_hex_text(text) || hex_bytes(text).len() < 16 {
        Err(StegoError::Decryption)
    } else {
        let envelope = hex_bytes(text);
        let iv = envelope.subrange(0, 16);
        let ciphertext = envelope.subrange(16, envelope.len() as int);
        match aes256cbc_open(sha256_digest(password), iv, ciphertext) {
            None => Err(StegoError::Decryption),
            Some(plain) => if valid_utf8(plain) {
                Ok(decode_utf8(plain))
            } else {
                Err(StegoError::Decryption)
            },
        }
    }
}

/// The key of a password: its SHA-256 digest.
pub fn derive_key(password: &str) -> (key: [u8; 32])
    ensures
        key@ == sha256_digest(encode_utf8(password@)),
{
    sha256(password.as_bytes())
}

/// The length of the hexadecimal text of an envelope that seals `n` bytes:
/// two digits for each byte of the vector and of the whole blocks that `n`
/// bytes and their padding fill.
pub open spec fn sealed_len(n: nat) -> nat {
    2 * (16 + 16 * (n / 16 + 1))
}

/// Seals `data` under `password` with the given initialisation vector and
/// returns the envelope as hexadecimal text. Sealing always succeeds, and
/// the text opens to `data` again under the same password.
pub fn encrypt_data_with(data: &str, password: &str, iv: &[u8; 16]) -> (res: Result<
    String,
    StegoError,
>)
    ensures
        text_bytes_outcome(res) == sealed(encode_utf8(data@), encode_utf8(password@), iv@),
        res is Ok,
        res matches Ok(text) ==> opened(encode_utf8(text@), encode_utf8(password@)) == Ok::<
            Seq<char>,
            StegoError,
        >(data@),
        res matches Ok(text) ==> encode_utf8(text@).len() == sealed_len(encode_utf8(data@).len()),
{
    let key = derive_key(password);
    let ciphertext = match aes256cbc_encrypt(&key, iv.as_slice(), data.as_bytes()) {
        Ok(ciphertext) => ciphertext,
        Err(_) => {
            return Err(StegoError::Encryption);
        },
    };
    let mut envelope: Vec<u8> = Vec::new();
    envelope.extend_from_slice(iv.as_slice());
    envelope.extend_from_slice(ciphertext.as_slice());
    let text = hex_encode(envelope.as_slice());
    proof {
        assert(envelope@ =~= iv@ + ciphertext@);
        lemma_hex_text_round_trip(envelope@);
        assert(envelope@.subrange(0, 16) =~= iv@);
        assert(envelope@.subrange(16, envelope@.len() as int) =~= ciphertext@);
        encode_utf8_valid_utf8(data@);
        encode_utf8_decode_utf8(data@);
    }
    Ok(text)
}

/// Seals `data` under `password` with a fresh initialisation vector from the
/// operating system's random number generator and returns the envelope as
/// hexadecimal text, which opens to `data` under the same password. Sealing
/// fails only where no random bytes can be had.
pub fn encrypt_data(data: &str, password: &str) -> (res: Result<String, StegoError>)
    ensures
        res == Err::<String, StegoError>(StegoError::Encryption) || (res is Ok && exists|
            iv: Seq<u8>,
        |
            iv.len() == 16 && #[trigger] sealed(encode_utf8(data@), encode_utf8(password@), iv)
                == text_bytes_outcome(res)),
        res matches Ok(text) ==> opened(encode_utf8(text@), encode_utf8(password@)) == Ok::<
            Seq<char>,
            StegoError,
        >(data@),
        res matches Ok(text) ==> encode_utf8(text@).len() == sealed_len(encode_utf8(data@).len()),
{
    let iv: [u8; 16] = match random_iv() {
        Ok(iv) => iv,
        Err(_) => {
            return Err(StegoError::Encryption);
        },
    };
    let res = encrypt_data_with(data, password, &iv);
    proof {
        assert(iv@.len() == 16 && sealed(encode_utf8(data@), encode_utf8(password@), iv@)
            == text_bytes_outcome(res));
    }
    res
}

/// Opens the envelope `encrypted_data`, given as hexadecimal text, under
/// `password`. Text that is not an envelope, a wrong padding and a content
/// that is no text all fail alike.
pub fn decrypt_data(encrypted_data: &str, password: &str) -> (res: Result<String, StegoError>)
    ensures
        text_outcome(res) == opened(encode_utf8(encrypted_data@), encode_utf8(password@)),
        hex_bytes(encode_utf8(encrypted_data@)).len() <= 16 ==> res is Err,
{
    let key = derive_key(password);
    let envelope = match hex_decode(encrypted_data.as_bytes()) {
        Ok(envelope) => envelope,
        Err(_) => {
            return Err(StegoError::Decryption);
        },
    };
    if envelope.len() < IV_LEN {
        return Err(StegoError::Decryption);
    }
    let iv = slice_subrange(envelope.as_slice(), 0, IV_LEN);
    let ciphertext = slice_subrange(envelope.as_slice(), IV_LEN, envelope.len());
    let plain = match aes256cbc_decrypt(&key, iv, ciphertext) {
        Ok(plain) => plain,
        Err(_) => {
            return Err(StegoError::Decryption);
        },
    };
    match string_from_utf8(plain) {
        Ok(text) => {
            proof {
                encode_utf8_decode_utf8(text@);
            }
            Ok(text)
        },
        Err(_) => Err(StegoError::Decryption),
    }
}

} // verus!
