//! The authenticated envelope: a text sealed under a password with Argon2id
//! and AES-256-GCM, written as hexadecimal text.
//!
//! An envelope is `salt (16 bytes) ‖ nonce (12 bytes) ‖ ciphertext with tag`.

use crate::error::StegoError;
use crate::hextext::{hex_bytes, hex_text, is_hex_text, lemma_hex_text_round_trip};
use crate::trusted::{
    aes256gcm_decrypt, aes256gcm_encrypt, aes256gcm_open, aes256gcm_seal, argon2id,
    argon2id_hash, hex_decode, hex_encode, os_random, string_from_utf8,
};
use vstd::prelude::*;
use vstd::slice::slice_subrange;
use vstd::utf8::{
    decode_utf8, encode_utf8, encode_utf8_decode_utf8, encode_utf8_valid_utf8, valid_utf8,
};

verus! {

/// The length of the salt at the head of an envelope.
pub const SALT_LEN: usize = 16;

/// The length of the nonce behind the salt.
pub const NONCE_LEN: usize = 12;

/// The length of salt and nonce together: the least an envelope can hold.
pub const HEADER_LEN: usize = 28;

/// The key that belongs to a password and a salt.
pub open spec fn key_for(password: Seq<u8>, salt: Seq<u8>) -> Result<Seq<u8>, StegoError> {
    match argon2id_hash(password, salt) {
        Some(key) => Ok(key),
        None => Err(StegoError::KeyDerivation),
    }
}

/// The hexadecimal text of the envelope that seals `data` under `password`
/// with the given salt and nonce.
pub open spec fn sealed(data: Seq<u8>, password: Seq<u8>, salt: Seq<u8>, nonce: Seq<u8>) -> Result<
    Seq<u8>,
    StegoError,
> {
    match argon2id_hash(password, salt) {
        None => Err(StegoError::KeyDerivation),
        Some(key) => match aes256gcm_seal(key, nonce, data) {
            None => Err(StegoError::Encryption),
            Some(ciphertext) => Ok(hex_text(salt + nonce + ciphertext)),
        },
    }
}

/// The text that opening the hexadecimal envelope `text` under `password`
/// gives, or why there is none.
pub open spec fn opened(text: Seq<u8>, password: Seq<u8>) -> Result<Seq<char>, StegoError> {
    if !is_hex_text(text) {
        Err(StegoError::Format)
    } else {
        let envelope = hex_bytes(text);
        if envelope.len() < 28 {
            Err(StegoError::Format)
        } else {
            let salt = envelope.subrange(0, 16);
            let nonce = envelope.subrange(16, 28);
            let ciphertext = envelope.subrange(28, envelope.len() as int);
            match argon2id_hash(password, salt) {
                None => Err(StegoError::KeyDerivation),
                Some(key) => match aes256gcm_open(key, nonce, ciphertext) {
                    None => Err(StegoError::Decryption),
                    Some(plain) => if valid_utf8(plain) {
                        Ok(decode_utf8(plain))
                    } else {
                        Err(StegoError::Decryption)
                    },
                },
            }
        }
    }
}

/// An outcome that holds a key, with the key taken by its view.
pub open spec fn key_outcome(res: Result<[u8; 32], StegoError>) -> Result<Seq<u8>, StegoError> {
    match res {
        Ok(key) => Ok(key@),
        Err(e) => Err(e),
    }
}

/// An outcome that holds a text, with the text taken as its UTF-8 bytes.
pub open spec fn text_bytes_outcome(res: Result<String, StegoError>) -> Result<
    Seq<u8>,
    StegoError,
> {
    match res {
        Ok(text) => Ok(encode_utf8(text@)),
        Err(e) => Err(e),
    }
}

/// An outcome that holds a text, with the text taken by its view.
pub open spec fn text_outcome(res: Result<String, StegoError>) -> Result<Seq<char>, StegoError> {
    match res {
        Ok(text) => Ok(text@),
        Err(e) => Err(e),
    }
}

/// Whether Argon2id takes a password and a salt of these lengths: the salt
/// has eight bytes or more, and neither is longer than 2^32 - 1 bytes.
pub open spec fn key_inputs_accepted(password: Seq<u8>, salt: Seq<u8>) -> bool {
    8 <= salt.len() <= 0xFFFF_FFFF && password.len() <= 0xFFFF_FFFF
}

/// Derives the 256-bit key of a password and a salt with Argon2id. The
/// derivation fails exactly where the salt is shorter than eight bytes or
/// the salt or the password is longer than 2^32 - 1 bytes.
pub fn derive_key(password: &str, salt: &[u8]) -> (res: Result<[u8; 32], StegoError>)
    ensures
        key_outcome(res) == key_for(encode_utf8(password@), salt@),
        res is Ok <==> key_inputs_accepted(encode_utf8(password@), salt@),
{
    match argon2id(password.as_bytes(), salt) {
        Ok(key) => Ok(key),
        Err(_) => Err(StegoError::KeyDerivation),
    }
}

/// Seals `data` under `password` with the given salt and nonce and returns
/// the envelope as hexadecimal text. The text opens to `data` again under the
/// same password. The key derivation fails only on a password longer than
/// 2^32 - 1 bytes.
pub fn encrypt_data_with(data: &str, password: &str, salt: &[u8; 16], nonce: &[u8; 12]) -> (res:
    Result<String, StegoError>)
    ensures
        text_bytes_outcome(res) == sealed(
            encode_utf8(data@),
            encode_utf8(password@),
            salt@,
            nonce@,
        ),
        res matches Ok(text) ==> opened(encode_utf8(text@), encode_utf8(password@)) == Ok::<
            Seq<char>,
            StegoError,
        >(data@),
        res matches Ok(text) ==> encode_utf8(text@).len() == 2 * encode_utf8(data@).len() + 88,
        res == Err::<String, StegoError>(StegoError::KeyDerivation) <==> encode_utf8(
            password@,
        ).len() > 0xFFFF_FFFF,
{
    let key = match derive_key(password, salt.as_slice()) {
        Ok(key) => key,
        Err(e) => {
            return Err(e);
        },
    };
    let ciphertext = match aes256gcm_encrypt(&key, nonce.as_slice(), data.as_bytes()) {
        Ok(ciphertext) => ciphertext,
        Err(_) => {
            return Err(StegoError::Encryption);
        },
    };
    let mut envelope: Vec<u8> = Vec::new();
    envelope.extend_from_slice(salt.as_slice());
    envelope.extend_from_slice(nonce.as_slice());
    envelope.extend_from_slice(ciphertext.as_slice());
    let text = hex_encode(envelope.as_slice());
    proof {
        let plain = encode_utf8(data@);
        assert(envelope@ =~= salt@ + nonce@ + ciphertext@);
        lemma_hex_text_round_trip(envelope@);
        assert(envelope@.subrange(0, 16) =~= salt@);
        assert(envelope@.subrange(16, 28) =~= nonce@);
        assert(envelope@.subrange(28, envelope@.len() as int) =~= ciphertext@);
        encode_utf8_valid_utf8(data@);
        encode_utf8_decode_utf8(data@);
    }
    Ok(text)
}

/// Seals `data` under `password` with a fresh random salt and nonce and
/// returns the envelope as hexadecimal text. Salt and nonce come from the
/// operating system's random number generator, so that two calls on the same
/// text do not give the same envelope; each envelope opens to `data` under
/// the same password.
pub fn encrypt_data(data: &str, password: &str) -> (res: Result<String, StegoError>)
    ensures
        res matches Ok(text) ==> exists|salt: Seq<u8>, nonce: Seq<u8>|
            salt.len() == 16 && nonce.len() == 12 && #[trigger] sealed(
                encode_utf8(data@),
                encode_utf8(password@),
                salt,
                nonce,
            ) == Ok::<Seq<u8>, StegoError>(encode_utf8(text@)),
        res matches Ok(text) ==> opened(encode_utf8(text@), encode_utf8(password@)) == Ok::<
            Seq<char>,
            StegoError,
        >(data@),
        res matches Ok(text) ==> encode_utf8(text@).len() == 2 * encode_utf8(data@).len() + 88,
        text_bytes_outcome(res) == Err::<Seq<u8>, StegoError>(StegoError::Encryption) || exists|
            salt: Seq<u8>,
            nonce: Seq<u8>,
        |
            salt.len() == 16 && nonce.len() == 12 && #[trigger] sealed(
                encode_utf8(data@),
                encode_utf8(password@),
                salt,
                nonce,
            ) == text_bytes_outcome(res),
        res == Err::<String, StegoError>(StegoError::KeyDerivation) ==> encode_utf8(
            password@,
        ).len() > 0xFFFF_FFFF,
{
    let salt: [u8; 16] = match os_random::<16>() {
        Ok(salt) => salt,
        Err(_) => {
            return Err(StegoError::Encryption);
        },
    };
    let nonce: [u8; 12] = match os_random::<12>() {
        Ok(nonce) => nonce,
        Err(_) => {
            return Err(StegoError::Encryption);
        },
    };
    let res = encrypt_data_with(data, password, &salt, &nonce);
    proof {
        assert(salt@.len() == 16 && nonce@.len() == 12 && sealed(
            encode_utf8(data@),
            encode_utf8(password@),
            salt@,
            nonce@,
        ) == text_bytes_outcome(res));
    }
    res
}

/// Opens an envelope given as the bytes of its hexadecimal text: decodes the
/// text, splits salt, nonce and ciphertext, derives the key and decrypts.
/// No text is returned unless the ciphertext authenticates; an envelope too
/// short to hold salt, nonce and tag never opens.
pub fn open_envelope(text: &[u8], password: &str) -> (res: Result<String, StegoError>)
    ensures
        text_outcome(res) == opened(text@, encode_utf8(password@)),
        hex_bytes(text@).len() < 44 ==> res is Err,
{
    let envelope = match hex_decode(text) {
        Ok(envelope) => envelope,
        Err(_) => {
            return Err(StegoError::Format);
        },
    };
    if envelope.len() < HEADER_LEN {
        return Err(StegoError::Format);
    }
    let salt = slice_subrange(envelope.as_slice(), 0, SALT_LEN);
    let nonce = slice_subrange(envelope.as_slice(), SALT_LEN, HEADER_LEN);
    let ciphertext = slice_subrange(envelope.as_slice(), HEADER_LEN, envelope.len());
    let key = match derive_key(password, salt) {
        Ok(key) => key,
        Err(e) => {
            return Err(e);
        },
    };
    let plain = match aes256gcm_decrypt(&key, nonce, ciphertext) {
        Ok(plain) => plain,
        Err(_) => {
            return Err(StegoError::Decryption);
        },
    };
    match string_from_utf8(plain) {
        Ok(text) => {
            proof {
                encode_utf8_decode_utf8(text@);
            }
            Ok(text)
        },
        Err(_) => Err(StegoError::Decryption),
    }
}

/// Opens the envelope `encrypted_data`, given as hexadecimal text, under
/// `password`.
pub fn decrypt_data(encrypted_data: &str, password: &str) -> (res: Result<String, StegoError>)
    ensures
        text_outcome(res) == opened(encode_utf8(encrypted_data@), encode_utf8(password@)),
        hex_bytes(encode_utf8(encrypted_data@)).len() < 44 ==> res is Err,
{
    open_envelope(encrypted_data.as_bytes(), password)
}

} // verus!
