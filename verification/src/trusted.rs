//! The calls into other crates. Verus takes the contracts in this file on
//! trust: each one says, above the item, what it claims of the function it
//! calls.

use crate::hextext::{hex_bytes, hex_text, is_hex_text};
use aes_gcm::aead::{Aead, KeyInit, OsRng};
use aes_gcm::{Aes256Gcm, Key, Nonce};
use block_modes::BlockMode;
use password_hash::rand_core::RngCore;
use rand::Rng;
use sha2::Digest;
use vstd::prelude::*;
use vstd::utf8::{encode_utf8, valid_utf8};

verus! {

/// The error of `hex::decode`.
#[verifier::external_type_specification]
#[verifier::external_body]
pub struct ExFromHexError(hex::FromHexError);

/// The error of `Argon2::hash_password_into`.
#[verifier::external_type_specification]
#[verifier::external_body]
pub struct ExArgon2Error(argon2::Error);

/// The error of `Aead::encrypt` and `Aead::decrypt`.
#[verifier::external_type_specification]
#[verifier::external_body]
pub struct ExAeadError(aes_gcm::Error);

/// The error of `RngCore::try_fill_bytes` and of `Rng::try_fill`.
#[verifier::external_type_specification]
#[verifier::external_body]
pub struct ExRandomError(password_hash::rand_core::Error);

/// The error of `BlockMode::new_from_slices`.
#[verifier::external_type_specification]
#[verifier::external_body]
pub struct ExInvalidKeyIvLength(block_modes::InvalidKeyIvLength);

/// The error of `BlockMode::decrypt_vec`.
#[verifier::external_type_specification]
#[verifier::external_body]
pub struct ExBlockModeError(block_modes::BlockModeError);

/// The error of `String::from_utf8`.
#[verifier::external_type_specification]
#[verifier::external_body]
pub struct ExFromUtf8Error(std::string::FromUtf8Error);

/// What Argon2id, version 19, with the `argon2` crate's default parameters
/// and a 32-byte output makes of a password and a salt; `None` where it
/// rejects them.
pub uninterp spec fn argon2id_hash(password: Seq<u8>, salt: Seq<u8>) -> Option<Seq<u8>>;

/// What AES-256-GCM makes of a plaintext under a key and a 96-bit nonce, with
/// no associated data: the ciphertext followed by its tag; `None` where it
/// rejects the plaintext.
pub uninterp spec fn aes256gcm_seal(key: Seq<u8>, nonce: Seq<u8>, plaintext: Seq<u8>) -> Option<
    Seq<u8>,
>;

/// The plaintext that AES-256-GCM recovers from a ciphertext with its tag;
/// `None` where the tag does not authenticate it.
pub uninterp spec fn aes256gcm_open(key: Seq<u8>, nonce: Seq<u8>, ciphertext: Seq<u8>) -> Option<
    Seq<u8>,
>;

/// The SHA-256 digest of `data`.
pub uninterp spec fn sha256_digest(data: Seq<u8>) -> Seq<u8>;

/// What AES-256 in CBC mode with PKCS#7 padding makes of a plaintext under a
/// key and an initialisation vector; `None` where the cipher cannot be set up.
pub uninterp spec fn aes256cbc_seal(key: Seq<u8>, iv: Seq<u8>, plaintext: Seq<u8>) -> Option<
    Seq<u8>,
>;

/// The plaintext that AES-256 in CBC mode recovers from a ciphertext; `None`
/// where the ciphertext is no whole number of blocks or its padding is wrong.
pub uninterp spec fn aes256cbc_open(key: Seq<u8>, iv: Seq<u8>, ciphertext: Seq<u8>) -> Option<
    Seq<u8>,
>;

/// Calls `hex::encode`. Claimed: the UTF-8 bytes of the returned string are
/// two lowercase hexadecimal digits per byte of `data`, high nibble first.
#[verifier::external_body]
pub(crate) fn hex_encode(data: &[u8]) -> (text: String)
    ensures
        encode_utf8(text@) == hex_text(data@),
{
    hex::encode(data)
}

/// Calls `hex::decode`. Claimed: it succeeds exactly on an even number of
/// hexadecimal digits, of either case, and then returns the byte that each
/// pair of digits stands for.
#[verifier::external_body]
pub(crate) fn hex_decode(text: &[u8]) -> (res: Result<Vec<u8>, hex::FromHexError>)
    ensures
        res is Ok <==> is_hex_text(text@),
        res matches Ok(bytes) ==> bytes@ == hex_bytes(text@),
{
    hex::decode(text)
}

/// Calls `Argon2::hash_password_into` on `Argon2::default()` with a buffer of
/// 32 bytes. Claimed: the outcome is a function of the password and the salt
/// alone, and the call succeeds exactly on a salt of eight bytes or more,
/// where neither the salt nor the password is longer than 2^32 - 1 bytes.
#[verifier::external_body]
pub(crate) fn argon2id(password: &[u8], salt: &[u8]) -> (res: Result<[u8; 32], argon2::Error>)
    ensures
        res matches Ok(key) ==> argon2id_hash(password@, salt@) == Some(key@),
        res is Err ==> argon2id_hash(password@, salt@) is None,
        res is Ok <==> (8 <= salt@.len() <= 0xFFFF_FFFF && password@.len() <= 0xFFFF_FFFF),
{
    let mut key = [0u8; 32];
    argon2::Argon2::default().hash_password_into(password, salt, &mut key)?;
    Ok(key)
}

/// Calls `try_fill_bytes` of the operating system's random number generator
/// on a buffer of `N` bytes. Nothing is claimed of the bytes.
#[verifier::external_body]
pub(crate) fn os_random<const N: usize>() -> (res: Result<
    [u8; N],
    password_hash::rand_core::Error,
>) {
    let mut bytes = [0u8; N];
    OsRng.try_fill_bytes(&mut bytes)?;
    Ok(bytes)
}

/// Calls `Aead::encrypt` of `Aes256Gcm`. Claimed: the outcome is a function
/// of key, nonce and plaintext alone; the result is sixteen bytes longer than
/// the plaintext; and decrypting it under the same key and nonce gives the
/// plaintext back.
#[verifier::external_body]
pub(crate) fn aes256gcm_encrypt(key: &[u8; 32], nonce: &[u8], plaintext: &[u8]) -> (res: Result<
    Vec<u8>,
    aes_gcm::Error,
>)
    requires
        nonce@.len() == 12,
    ensures
        res matches Ok(sealed) ==> aes256gcm_seal(key@, nonce@, plaintext@) == Some(sealed@),
        res is Err ==> aes256gcm_seal(key@, nonce@, plaintext@) is None,
        res matches Ok(sealed) ==> sealed@.len() == plaintext@.len() + 16,
        res matches Ok(sealed) ==> aes256gcm_open(key@, nonce@, sealed@) == Some(plaintext@),
{
    let cipher = Aes256Gcm::new(Key::<Aes256Gcm>::from_slice(key));
    cipher.encrypt(Nonce::from_slice(nonce), plaintext)
}

/// Calls `Aead::decrypt` of `Aes256Gcm`. Claimed: the outcome is a function
/// of key, nonce and ciphertext alone, and a ciphertext of fewer than sixteen
/// bytes, too short to hold a tag, is rejected.
#[verifier::external_body]
pub(crate) fn aes256gcm_decrypt(key: &[u8; 32], nonce: &[u8], ciphertext: &[u8]) -> (res: Result<
    Vec<u8>,
    aes_gcm::Error,
>)
    requires
        nonce@.len() == 12,
    ensures
        res matches Ok(plain) ==> aes256gcm_open(key@, nonce@, ciphertext@) == Some(plain@),
        res is Err ==> aes256gcm_open(key@, nonce@, ciphertext@) is None,
        ciphertext@.len() < 16 ==> res is Err,
{
    let cipher = Aes256Gcm::new(Key::<Aes256Gcm>::from_slice(key));
    cipher.decrypt(Nonce::from_slice(nonce), ciphertext)
}

/// Calls `Sha256::digest`. Claimed: the digest is a function of the data alone.
#[verifier::external_body]
pub(crate) fn sha256(data: &[u8]) -> (digest: [u8; 32])
    ensures
        digest@ == sha256_digest(data@),
{
    sha2::Sha256::digest(data).into()
}

/// Calls `Rng::try_fill` of the `rand` crate on its `OsRng`, for a slice of
/// sixteen bytes. Nothing is claimed of the bytes.
#[verifier::external_body]
pub(crate) fn random_iv() -> (res: Result<[u8; 16], rand::Error>) {
    let mut iv = [0u8; 16];
    rand::rngs::OsRng.try_fill(&mut iv[..])?;
    Ok(iv)
}

/// Calls `BlockMode::encrypt_vec` of `Cbc<Aes256, Pkcs7>`, set up by
/// `new_from_slices`. Claimed: the outcome is a function of key,
/// initialisation vector and plaintext alone; the call succeeds exactly on a
/// vector of sixteen bytes; the result is the plaintext's length filled up to
/// the next whole block, a full block where it was whole already; and
/// decrypting the result under the same key and vector gives the plaintext
/// back.
#[verifier::external_body]
pub(crate) fn aes256cbc_encrypt(key: &[u8; 32], iv: &[u8], plaintext: &[u8]) -> (res: Result<
    Vec<u8>,
    block_modes::InvalidKeyIvLength,
>)
    ensures
        res matches Ok(sealed) ==> aes256cbc_seal(key@, iv@, plaintext@) == Some(sealed@),
        res is Err ==> aes256cbc_seal(key@, iv@, plaintext@) is None,
        res is Ok <==> iv@.len() == 16,
        res matches Ok(sealed) ==> sealed@.len() == 16 * (plaintext@.len() / 16 + 1),
        res matches Ok(sealed) ==> aes256cbc_open(key@, iv@, sealed@) == Some(plaintext@),
{
    let cipher = block_modes::Cbc::<aes::Aes256, block_modes::block_padding::Pkcs7>::new_from_slices(
        key,
        iv,
    )?;
    Ok(cipher.encrypt_vec(plaintext))
}

/// Calls `BlockMode::decrypt_vec` of `Cbc<Aes256, Pkcs7>`, set up by
/// `new_from_slices`. Claimed: the outcome is a function of key,
/// initialisation vector and ciphertext alone, and an empty ciphertext is
/// rejected.
#[verifier::external_body]
pub(crate) fn aes256cbc_decrypt(key: &[u8; 32], iv: &[u8], ciphertext: &[u8]) -> (res: Result<
    Vec<u8>,
    block_modes::BlockModeError,
>)
    ensures
        res matches Ok(plain) ==> aes256cbc_open(key@, iv@, ciphertext@) == Some(plain@),
        res is Err ==> aes256cbc_open(key@, iv@, ciphertext@) is None,
        ciphertext@.len() == 0 ==> res is Err,
{
    let cipher = block_modes::Cbc::<aes::Aes256, block_modes::block_padding::Pkcs7>::new_from_slices(
        key,
        iv,
    ).map_err(|_| block_modes::BlockModeError)?;
    cipher.decrypt_vec(ciphertext)
}

/// Calls `String::from_utf8`. Claimed: it succeeds exactly on valid UTF-8,
/// and the string it returns has the given bytes as its UTF-8 encoding.
#[verifier::external_body]
pub(crate) fn string_from_utf8(bytes: Vec<u8>) -> (res: Result<String, std::string::FromUtf8Error>)
    ensures
        res is Ok <==> valid_utf8(bytes@),
        res matches Ok(text) ==> encode_utf8(text@) == bytes@,
{
    String::from_utf8(bytes)
}

} // verus!
