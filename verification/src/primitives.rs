//! The cryptographic and encoding primitives the vault rests on.
//!
//! Nothing in this module is proved. Each function below hands its arguments
//! to another crate and carries a contract that Verus takes on trust; the
//! contracts are written against that crate's source. Where the value a
//! primitive returns is fixed by its arguments but far too long to write
//! down (a hash, a ciphertext), the contract gives it a name, and the rest of
//! the library reasons about the name.

use aes_gcm::aead::{Aead, KeyInit};
use aes_gcm::{Aes256Gcm, Nonce};
use argon2::password_hash::SaltString;
use argon2::Argon2;
use base64::engine::general_purpose::STANDARD;
use base64::Engine;
use rand_core::{OsRng, RngCore};
use std::string::FromUtf8Error;
use vstd::prelude::*;
use vstd::utf8::{encode_utf8, valid_utf8};

verus! {

/// Length of a derived key in bytes.
pub const KEY_LEN: usize = 32;

/// Length of a nonce in bytes.
pub const NONCE_LEN: usize = 12;

/// Length of the authentication tag that closes every ciphertext.
pub const TAG_LEN: usize = 16;

/// Number of characters in a freshly drawn salt.
pub const FRESH_SALT_LEN: usize = 22;

/// The longest password or salt, in bytes, that the key derivation takes.
pub const MAX_KDF_INPUT_LEN: usize = 0xFFFF_FFFF;

/// The shortest salt, in bytes, that the key derivation takes.
pub const MIN_KDF_SALT_LEN: usize = 8;

#[verifier::external_type_specification]
#[verifier::external_body]
pub struct ExPasswordHashError(argon2::password_hash::Error);

#[verifier::external_type_specification]
#[verifier::external_body]
pub struct ExArgon2Error(argon2::Error);

#[verifier::external_type_specification]
#[verifier::external_body]
pub struct ExAeadError(aes_gcm::Error);

#[verifier::external_type_specification]
#[verifier::external_body]
pub struct ExDecodeError(base64::DecodeError);

#[verifier::external_type_specification]
#[verifier::external_body]
pub struct ExFromUtf8Error(FromUtf8Error);

/// The standard, padded base64 text of `bytes`.
pub uninterp spec fn base64_text(bytes: Seq<u8>) -> Seq<char>;

/// The bytes that standard, padded base64 `text` stands for, if it is well formed.
pub uninterp spec fn base64_bytes(text: Seq<char>) -> Option<Seq<u8>>;

/// The 32-byte Argon2id hash of `password` under `salt`, at the default cost
/// parameters and without secret or associated data.
pub uninterp spec fn argon2id_key(password: Seq<u8>, salt: Seq<u8>) -> Seq<u8>;

/// The AES-256-GCM ciphertext of `plaintext`, authentication tag appended,
/// under `key` and `nonce` with no associated data.
pub uninterp spec fn aes_gcm_sealed(key: Seq<u8>, nonce: Seq<u8>, plaintext: Seq<u8>) -> Seq<u8>;

/// The plaintext that AES-256-GCM recovers from `sealed` under `key` and
/// `nonce`, or `None` where the tag does not verify.
pub uninterp spec fn aes_gcm_opened(key: Seq<u8>, nonce: Seq<u8>, sealed: Seq<u8>) -> Option<
    Seq<u8>,
>;

/// The characters a salt may hold: ASCII letters and digits, `/`, `+`, `.` and `-`.
pub open spec fn is_salt_char(c: char) -> bool {
    ||| 'a' <= c <= 'z'
    ||| 'A' <= c <= 'Z'
    ||| '0' <= c <= '9'
    ||| c == '/'
    ||| c == '+'
    ||| c == '.'
    ||| c == '-'
}

/// A salt is 4 to 64 characters long and holds salt characters only.
pub open spec fn is_valid_salt(salt: Seq<char>) -> bool {
    &&& 4 <= salt.len() <= 64
    &&& forall|i: int| 0 <= i < salt.len() ==> is_salt_char(#[trigger] salt[i])
}

/// Whether the key derivation takes a password and a salt of these lengths.
pub open spec fn kdf_accepts(password_len: nat, salt_len: nat) -> bool {
    &&& password_len <= MAX_KDF_INPUT_LEN
    &&& MIN_KDF_SALT_LEN <= salt_len <= MAX_KDF_INPUT_LEN
}

/// The longest plaintext, in bytes, that the cipher takes.
pub open spec fn max_cipher_input_len() -> nat {
    0x10_0000_0000
}

/// Whether `bytes` can be turned into base64 text: the text is four
/// characters for every three bytes begun, and must fit in memory.
pub open spec fn base64_fits(len: nat) -> bool {
    (len + 2) / 3 * 4 <= isize::MAX
}

/// Calls `Engine::encode` of the `base64` crate on its `STANDARD` engine.
///
/// Trusted: the text is the standard padded encoding of `bytes`, and it is
/// one that the same engine decodes back to `bytes`. The call aborts when the
/// length of the text cannot be represented, which the precondition rules out.
#[verifier::external_body]
pub(crate) fn base64_encode(bytes: &[u8]) -> (text: String)
    requires
        base64_fits(bytes@.len()),
    ensures
        text@ == base64_text(bytes@),
        base64_bytes(text@) == Some(bytes@),
{
    STANDARD.encode(bytes)
}

/// Calls `Engine::decode` of the `base64` crate on its `STANDARD` engine.
///
/// Trusted: the call succeeds exactly on well-formed text and then returns
/// the bytes the text stands for.
#[verifier::external_body]
pub(crate) fn base64_decode(text: &str) -> (res: Result<Vec<u8>, base64::DecodeError>)
    ensures
        match res {
            Ok(bytes) => base64_bytes(text@) == Some(bytes@),
            Err(_) => base64_bytes(text@) is None,
        },
{
    STANDARD.decode(text)
}

/// Calls `SaltString::generate` of the `password-hash` crate, as `argon2`
/// re-exports it, with the operating system's random number generator.
///
/// Trusted: the salt is the unpadded base64 text of 16 random bytes, hence 22
/// characters from the salt alphabet. Nothing is claimed about which salt is
/// drawn. The call aborts where the operating system gives no random bytes.
#[verifier::external_body]
pub(crate) fn random_salt() -> (salt: String)
    ensures
        salt@.len() == FRESH_SALT_LEN,
        is_valid_salt(salt@),
{
    SaltString::generate(&mut OsRng).as_str().to_owned()
}

/// Calls `SaltString::from_b64` of the `password-hash` crate, as `argon2`
/// re-exports it, and drops the value it builds.
///
/// Trusted: the call succeeds exactly on text of 4 to 64 characters drawn
/// from the salt alphabet.
#[verifier::external_body]
pub(crate) fn check_salt(salt: &str) -> (res: Result<(), argon2::password_hash::Error>)
    ensures
        res is Ok <==> is_valid_salt(salt@),
{
    match SaltString::from_b64(salt) {
        Ok(_) => Ok(()),
        Err(e) => Err(e),
    }
}

/// Calls `RngCore::fill_bytes` of `rand_core` on `OsRng`.
///
/// Nothing is claimed about the bytes drawn. The call aborts where the
/// operating system gives no random bytes.
#[verifier::external_body]
pub(crate) fn random_nonce() -> (nonce: [u8; NONCE_LEN]) {
    let mut nonce = [0u8; NONCE_LEN];
    OsRng.fill_bytes(&mut nonce);
    nonce
}

/// Calls `Argon2::hash_password_into` of the `argon2` crate on
/// `Argon2::default()`, with a 32-byte output buffer.
///
/// Trusted: the call fails exactly when the password is longer than
/// 0xFFFFFFFF bytes or the salt is shorter than 8 or longer than 0xFFFFFFFF
/// bytes; otherwise the key is the Argon2id hash of the two.
#[verifier::external_body]
pub(crate) fn argon2id(password: &[u8], salt: &[u8]) -> (res: Result<[u8; KEY_LEN], argon2::Error>)
    ensures
        res is Ok <==> kdf_accepts(password@.len(), salt@.len()),
        res matches Ok(key) ==> key@ == argon2id_key(password@, salt@),
{
    let mut key = [0u8; KEY_LEN];
    match Argon2::default().hash_password_into(password, salt, &mut key) {
        Ok(()) => Ok(key),
        Err(e) => Err(e),
    }
}

/// Calls `Aead::encrypt` of the `aes-gcm` crate on an `Aes256Gcm` built from
/// `key`.
///
/// Trusted: the call fails exactly when the plaintext is longer than 2^36
/// bytes; otherwise the result is the ciphertext with its 16-byte tag
/// appended, and it is one that the same cipher opens, under the same key and
/// nonce, to the plaintext. The call reserves room for plaintext and tag
/// before it looks at the length, which the precondition keeps representable.
#[verifier::external_body]
pub(crate) fn aes_gcm_seal(key: &[u8; KEY_LEN], nonce: &[u8; NONCE_LEN], plaintext: &[u8]) -> (res:
    Result<Vec<u8>, aes_gcm::Error>)
    requires
        plaintext@.len() + TAG_LEN <= isize::MAX,
    ensures
        res is Ok <==> plaintext@.len() <= max_cipher_input_len(),
        res matches Ok(sealed) ==> {
            &&& sealed@ == aes_gcm_sealed(key@, nonce@, plaintext@)
            &&& sealed@.len() == plaintext@.len() + TAG_LEN
            &&& aes_gcm_opened(key@, nonce@, sealed@) == Some(plaintext@)
        },
{
    Aes256Gcm::new(key.into()).encrypt(Nonce::from_slice(nonce), plaintext)
}

/// Calls `Aead::decrypt` of the `aes-gcm` crate on an `Aes256Gcm` built from
/// `key`.
///
/// Trusted: the call succeeds exactly when the tag verifies and then returns
/// the plaintext.
#[verifier::external_body]
pub(crate) fn aes_gcm_open(key: &[u8; KEY_LEN], nonce: &[u8; NONCE_LEN], sealed: &[u8]) -> (res:
    Result<Vec<u8>, aes_gcm::Error>)
    ensures
        match res {
            Ok(plaintext) => aes_gcm_opened(key@, nonce@, sealed@) == Some(plaintext@),
            Err(_) => aes_gcm_opened(key@, nonce@, sealed@) is None,
        },
{
    Aes256Gcm::new(key.into()).decrypt(Nonce::from_slice(nonce), sealed)
}

/// `String::from_utf8` succeeds exactly on valid UTF-8 and then returns the
/// text whose encoding the bytes are.
pub assume_specification[ String::from_utf8 ](bytes: Vec<u8>) -> (res: Result<
    String,
    FromUtf8Error,
>)
    ensures
        res is Ok <==> valid_utf8(bytes@),
        res matches Ok(text) ==> encode_utf8(text@) == bytes@,
;

} // verus!
