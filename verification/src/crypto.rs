//! Sealing text under a password and opening it again.
//!
//! Sealing derives a key from the password and a fresh salt, encrypts the
//! text under a fresh nonce, lays salt, nonce and ciphertext out as an
//! [`Envelope`] and returns its bytes as base64 text. Opening undoes each
//! step and re-derives the key from the salt found in the envelope.
//!
//! [`sealed`] and [`opened`] say what the two directions compute; the
//! functions of this module are proved against them.

use crate::envelope::{
    fields, lemma_field_count, lemma_parse_to_bytes, lemma_salt_has_no_separator, parsed,
    separator_count, Envelope, EnvelopeView,
};
use crate::error::{CryptoError, ErrorKind};
use crate::primitives::{
    aes_gcm_open, aes_gcm_opened, aes_gcm_seal, aes_gcm_sealed, argon2id, argon2id_key,
    base64_bytes, base64_decode, base64_encode, base64_text, check_salt, is_valid_salt,
    kdf_accepts, max_cipher_input_len, random_nonce, random_salt, FRESH_SALT_LEN, KEY_LEN,
    MAX_KDF_INPUT_LEN, NONCE_LEN,
};
use vstd::prelude::*;
use vstd::utf8::{decode_utf8, encode_utf8, valid_utf8};

verus! {

/// Bytes that an envelope holds besides the plaintext: the longest salt, the
/// nonce, the tag and the two separators.
pub const ENVELOPE_OVERHEAD: usize = 94;

/// The key that `password` and `salt` derive, where the key derivation takes
/// them. The salt enters as the bytes of its text.
pub open spec fn derived_key(password: Seq<u8>, salt: Seq<char>) -> Option<Seq<u8>> {
    if kdf_accepts(password.len(), encode_utf8(salt).len()) {
        Some(argon2id_key(password, encode_utf8(salt)))
    } else {
        None
    }
}

/// The longest plaintext, in bytes, that can be sealed: what the cipher
/// takes, and no more than leaves the envelope's base64 text representable.
pub open spec fn max_plaintext_len() -> nat {
    let room = (isize::MAX / 4 * 3 - ENVELOPE_OVERHEAD) as nat;
    if max_cipher_input_len() <= room {
        max_cipher_input_len()
    } else {
        room
    }
}

/// The envelope that sealing `data` under `password` with the given salt and
/// nonce fills, or the kind of failure.
pub open spec fn sealed_envelope(
    data: Seq<char>,
    password: Seq<char>,
    salt: Seq<char>,
    nonce: Seq<u8>,
) -> Result<EnvelopeView, ErrorKind> {
    if !is_valid_salt(salt) {
        Err(ErrorKind::Argon2PasswordHash)
    } else {
        match derived_key(encode_utf8(password), salt) {
            None => Err(ErrorKind::Argon2Lib),
            Some(key) => if encode_utf8(data).len() > max_plaintext_len() {
                Err(ErrorKind::Aes)
            } else {
                Ok(
                    EnvelopeView {
                        salt,
                        nonce,
                        ciphertext: aes_gcm_sealed(key, nonce, encode_utf8(data)),
                    },
                )
            },
        }
    }
}

/// The text that sealing `data` under `password` with the given salt and
/// nonce returns: the base64 text of the envelope's bytes.
pub open spec fn sealed(data: Seq<char>, password: Seq<char>, salt: Seq<char>, nonce: Seq<u8>)
    -> Result<Seq<char>, ErrorKind> {
    match sealed_envelope(data, password, salt, nonce) {
        Ok(envelope) => Ok(base64_text(envelope.to_bytes())),
        Err(kind) => Err(kind),
    }
}

/// What opening returns once the text is decoded to `bytes`. The checks come
/// in this order: the bytes hold an envelope; its salt is well formed; the
/// key derivation takes password and salt; the tag verifies; the plaintext
/// is UTF-8.
pub open spec fn opened_bytes(bytes: Seq<u8>, password: Seq<char>) -> Result<Seq<char>, ErrorKind> {
    match parsed(bytes) {
        None => Err(ErrorKind::Format),
        Some(envelope) => if !is_valid_salt(envelope.salt) {
            Err(ErrorKind::Argon2PasswordHash)
        } else {
            match derived_key(encode_utf8(password), envelope.salt) {
                None => Err(ErrorKind::Argon2Lib),
                Some(key) => match aes_gcm_opened(key, envelope.nonce, envelope.ciphertext) {
                    None => Err(ErrorKind::Aes),
                    Some(plaintext) => if valid_utf8(plaintext) {
                        Ok(decode_utf8(plaintext))
                    } else {
                        Err(ErrorKind::Utf8)
                    },
                },
            }
        },
    }
}

/// What opening `envelope` under `password` returns: `Base64` where the text
/// is not base64, and else what opening its bytes returns.
pub open spec fn opened(envelope: Seq<char>, password: Seq<char>) -> Result<Seq<char>, ErrorKind> {
    match base64_bytes(envelope) {
        None => Err(ErrorKind::Base64),
        Some(bytes) => opened_bytes(bytes, password),
    }
}

/// What opening returns for the text that sealing `data` gave: the data,
/// unless the nonce or the ciphertext holds the separator byte, in which
/// case the envelope cannot be read back.
pub open spec fn reopened(data: Seq<char>, password: Seq<char>, salt: Seq<char>, nonce: Seq<u8>)
    -> Result<Seq<char>, ErrorKind> {
    if sealed_envelope(data, password, salt, nonce) matches Ok(envelope)
        && envelope.is_separable() {
        Ok(data)
    } else {
        Err(ErrorKind::Format)
    }
}

/// Whether `res` is what sealing with the given salt and nonce returns, and
/// opens again as [`reopened`] says.
pub open spec fn is_sealing(
    res: Result<String, CryptoError>,
    data: Seq<char>,
    password: Seq<char>,
    salt: Seq<char>,
    nonce: Seq<u8>,
) -> bool {
    match res {
        Ok(envelope) => {
            &&& sealed(data, password, salt, nonce) == Ok::<Seq<char>, ErrorKind>(envelope@)
            &&& opened(envelope@, password) == reopened(data, password, salt, nonce)
        },
        Err(e) => sealed(data, password, salt, nonce) == Err::<Seq<char>, ErrorKind>(e@),
    }
}

/// Whether `msg` is the message of some failure of the given kind.
pub open spec fn is_message_of(kind: ErrorKind, msg: Seq<char>) -> bool {
    exists|e: CryptoError| #[trigger] e.is_message(msg) && e@ == kind
}

/// As [`is_sealing`], of a result that reports a failure by its message.
pub open spec fn is_reported_sealing(
    res: Result<String, String>,
    data: Seq<char>,
    password: Seq<char>,
    salt: Seq<char>,
    nonce: Seq<u8>,
) -> bool {
    match res {
        Ok(envelope) => {
            &&& sealed(data, password, salt, nonce) == Ok::<Seq<char>, ErrorKind>(envelope@)
            &&& opened(envelope@, password) == reopened(data, password, salt, nonce)
        },
        Err(msg) => sealed(data, password, salt, nonce) matches Err(kind) && is_message_of(
            kind,
            msg@,
        ),
    }
}

/// What is known of a salt and a nonce drawn afresh: the salt is a salt of
/// 22 characters, the nonce has 12 bytes.
pub open spec fn is_fresh(salt: Seq<char>, nonce: Seq<u8>) -> bool {
    &&& is_valid_salt(salt)
    &&& salt.len() == FRESH_SALT_LEN
    &&& nonce.len() == NONCE_LEN
}

/// Whether sealing `data` under `password` succeeds with a fresh salt: the
/// key derivation takes the password and the text is no longer than
/// [`max_plaintext_len`].
pub open spec fn can_seal(data: Seq<char>, password: Seq<char>) -> bool {
    &&& encode_utf8(password).len() <= MAX_KDF_INPUT_LEN
    &&& encode_utf8(data).len() <= max_plaintext_len()
}

/// The kind of failure of sealing with a fresh salt, where it fails: the
/// key derivation refuses the password, or else the text is too long.
pub open spec fn sealing_failure(password: Seq<char>) -> ErrorKind {
    if encode_utf8(password).len() > MAX_KDF_INPUT_LEN {
        ErrorKind::Argon2Lib
    } else {
        ErrorKind::Aes
    }
}

/// The longest plaintext, in bytes, that can be sealed.
pub fn plaintext_limit() -> (limit: usize)
    ensures
        limit == max_plaintext_len(),
{
    let room: usize = (isize::MAX as usize) / 4 * 3 - ENVELOPE_OVERHEAD;
    if room as u64 >= 0x10_0000_0000u64 {
        0x10_0000_0000u64 as usize
    } else {
        room
    }
}

/// Derives the 32-byte key of `password` and `salt`. Fails with `Argon2Lib`
/// exactly when the key derivation refuses the two: the password is longer
/// than 0xFFFFFFFF bytes or the salt shorter than 8.
pub fn derive_key(password: &[u8], salt: &str) -> (res: Result<[u8; KEY_LEN], CryptoError>)
    ensures
        match res {
            Ok(key) => derived_key(password@, salt@) == Some(key@),
            Err(e) => derived_key(password@, salt@) is None && e@ == ErrorKind::Argon2Lib,
        },
{
    match argon2id(password, salt.as_bytes()) {
        Ok(key) => Ok(key),
        Err(e) => Err(CryptoError::Argon2Lib(e)),
    }
}

/// Seals `data` under `password` with the salt and the nonce given.
///
/// The result is fixed by the four arguments. Where it is text, opening that
/// text under the same password gives `data` back, unless nonce or
/// ciphertext hold the separator byte: then opening fails with `Format`.
pub fn seal_with(data: &str, password: &str, salt: &str, nonce: &[u8; NONCE_LEN]) -> (res: Result<
    String,
    CryptoError,
>)
    ensures
        is_sealing(res, data@, password@, salt@, nonce@),
{
    if let Err(e) = check_salt(salt) {
        return Err(CryptoError::Argon2PasswordHash(e));
    }
    let key = derive_key(password.as_bytes(), salt)?;
    let plaintext = data.as_bytes();
    if plaintext.len() > plaintext_limit() {
        return Err(CryptoError::Aes);
    }
    let ciphertext = match aes_gcm_seal(&key, nonce, plaintext) {
        Ok(ciphertext) => ciphertext,
        Err(_) => {
            return Err(CryptoError::Aes);
        },
    };
    let envelope = Envelope { salt: salt.to_owned(), nonce: *nonce, ciphertext };
    let bytes = envelope.to_bytes();
    proof {
        lemma_salt_has_no_separator(salt@);
    }
    let text = base64_encode(bytes.as_slice());
    proof {
        lemma_round_trip(data@, password@, salt@, nonce@);
    }
    Ok(text)
}

/// Opening what was sealed under the same password gives the text back.
///
/// This holds of every text, password, salt and nonce for which sealing
/// succeeds and neither the nonce nor the ciphertext holds the separator
/// byte, given that the cipher opens what it sealed, which its contract
/// promises. Where one of the two fields holds the separator, say a nonce
/// with the byte `0x7C` in it, opening fails with `Format` instead.
pub proof fn lemma_round_trip(
    data: Seq<char>,
    password: Seq<char>,
    salt: Seq<char>,
    nonce: Seq<u8>,
)
    requires
        nonce.len() == NONCE_LEN,
        sealed_envelope(data, password, salt, nonce) is Ok,
        ({
            let envelope = sealed_envelope(data, password, salt, nonce)->Ok_0;
            let key = derived_key(encode_utf8(password), salt)->Some_0;
            aes_gcm_opened(key, nonce, envelope.ciphertext) == Some(encode_utf8(data))
        }),
    ensures
        opened_bytes(sealed_envelope(data, password, salt, nonce)->Ok_0.to_bytes(), password)
            == reopened(data, password, salt, nonce),
{
    let envelope = sealed_envelope(data, password, salt, nonce)->Ok_0;
    lemma_parse_to_bytes(envelope);
    vstd::utf8::encode_utf8_valid_utf8(data);
    vstd::utf8::encode_utf8_decode_utf8(data);
}

/// Opening under another password fails with `Aes`.
///
/// This holds of every envelope that sealing gave and that can be read back,
/// and of every other password that the key derivation takes and under whose
/// key the tag does not verify. Whether a tag verifies under a second key is
/// the cipher's matter: nothing here shows that it never does.
pub proof fn lemma_wrong_password_rejected(
    data: Seq<char>,
    password: Seq<char>,
    other: Seq<char>,
    salt: Seq<char>,
    nonce: Seq<u8>,
)
    requires
        password != other,
        nonce.len() == NONCE_LEN,
        sealed_envelope(data, password, salt, nonce) is Ok,
        ({
            let envelope = sealed_envelope(data, password, salt, nonce)->Ok_0;
            &&& envelope.is_separable()
            &&& derived_key(encode_utf8(other), salt) matches Some(key) && aes_gcm_opened(
                key,
                nonce,
                envelope.ciphertext,
            ) is None
        }),
    ensures
        opened_bytes(sealed_envelope(data, password, salt, nonce)->Ok_0.to_bytes(), other) == Err::<
            Seq<char>,
            ErrorKind,
        >(ErrorKind::Aes),
{
    lemma_parse_to_bytes(sealed_envelope(data, password, salt, nonce)->Ok_0);
}

/// Opening an envelope whose ciphertext was changed in one byte fails.
///
/// This holds of every envelope that sealing gave, of every position in its
/// ciphertext and of every other byte put there, given that the tag of the
/// changed ciphertext does not verify. The failure is `Format` where a field
/// holds the separator byte, which the changed ciphertext does if that byte
/// was put in, and `Aes` otherwise.
pub proof fn lemma_tampering_rejected(
    data: Seq<char>,
    password: Seq<char>,
    salt: Seq<char>,
    nonce: Seq<u8>,
    index: int,
    byte: u8,
)
    requires
        nonce.len() == NONCE_LEN,
        sealed_envelope(data, password, salt, nonce) is Ok,
        ({
            let envelope = sealed_envelope(data, password, salt, nonce)->Ok_0;
            let key = derived_key(encode_utf8(password), salt)->Some_0;
            &&& 0 <= index < envelope.ciphertext.len()
            &&& byte != envelope.ciphertext[index]
            &&& aes_gcm_opened(key, nonce, envelope.ciphertext.update(index, byte)) is None
        }),
    ensures
        ({
            let envelope = sealed_envelope(data, password, salt, nonce)->Ok_0;
            let tampered = EnvelopeView {
                ciphertext: envelope.ciphertext.update(index, byte),
                ..envelope
            };
            opened_bytes(tampered.to_bytes(), password) == Err::<Seq<char>, ErrorKind>(
                if tampered.is_separable() {
                    ErrorKind::Aes
                } else {
                    ErrorKind::Format
                },
            )
        }),
{
    let envelope = sealed_envelope(data, password, salt, nonce)->Ok_0;
    let tampered = EnvelopeView { ciphertext: envelope.ciphertext.update(index, byte), ..envelope };
    lemma_parse_to_bytes(tampered);
}

/// Opening refuses what is not an envelope: text that is not base64 with
/// `Base64`; bytes with fewer or more than two separators with `Format`; and
/// bytes whose middle field is not 12 bytes long with `Format`.
pub proof fn lemma_malformed_rejected(envelope: Seq<char>, password: Seq<char>)
    ensures
        base64_bytes(envelope) is None ==> opened(envelope, password) == Err::<
            Seq<char>,
            ErrorKind,
        >(ErrorKind::Base64),
        base64_bytes(envelope) matches Some(bytes) && separator_count(bytes) != 2 ==> opened(
            envelope,
            password,
        ) == Err::<Seq<char>, ErrorKind>(ErrorKind::Format),
        base64_bytes(envelope) matches Some(bytes) && separator_count(bytes) == 2 && fields(
            bytes,
        )[1].len() != NONCE_LEN ==> opened(envelope, password) == Err::<Seq<char>, ErrorKind>(
            ErrorKind::Format,
        ),
{
    if let Some(bytes) = base64_bytes(envelope) {
        lemma_field_count(bytes);
    }
}

/// Seals `data` under `password` with a salt and a nonce drawn afresh.
///
/// Sealing succeeds unless the password is longer than 0xFFFFFFFF bytes
/// (`Argon2Lib`) or the text longer than [`max_plaintext_len`] (`Aes`).
/// Whatever salt and nonce were drawn, the result is the one that
/// [`seal_with`] gives for them: text that opens under `password` to `data`,
/// unless nonce or ciphertext hold the separator byte.
pub fn _encrypt(data: &str, password: &str) -> (res: Result<String, CryptoError>)
    ensures
        exists|salt: Seq<char>, nonce: Seq<u8>|
            is_fresh(salt, nonce) && #[trigger] is_sealing(res, data@, password@, salt, nonce),
        res is Ok <==> can_seal(data@, password@),
        res matches Err(e) ==> e@ == sealing_failure(password@),
{
    let salt = random_salt();
    let nonce = random_nonce();
    let res = seal_with(data, password, salt.as_str(), &nonce);
    proof {
        lemma_salt_has_no_separator(salt@);
    }
    res
}

/// Opens `encoded_data` under `password`: the result is [`opened`] of the
/// two, with the failure's kind as the view of the error.
pub fn _decrypt(encoded_data: &str, password: &str) -> (res: Result<String, CryptoError>)
    ensures
        match res {
            Ok(data) => opened(encoded_data@, password@) == Ok::<Seq<char>, ErrorKind>(data@),
            Err(e) => opened(encoded_data@, password@) == Err::<Seq<char>, ErrorKind>(e@),
        },
{
    let decoded_bytes = match base64_decode(encoded_data) {
        Ok(bytes) => bytes,
        Err(e) => {
            return Err(CryptoError::Base64(e));
        },
    };
    let envelope = Envelope::parse(decoded_bytes.as_slice())?;
    if let Err(e) = check_salt(envelope.salt.as_str()) {
        return Err(CryptoError::Argon2PasswordHash(e));
    }
    let key = derive_key(password.as_bytes(), envelope.salt.as_str())?;
    let plaintext_bytes = match aes_gcm_open(&key, &envelope.nonce, envelope.ciphertext.as_slice()) {
        Ok(bytes) => bytes,
        Err(_) => {
            return Err(CryptoError::Aes);
        },
    };
    match String::from_utf8(plaintext_bytes) {
        Ok(data) => {
            proof {
                vstd::utf8::encode_utf8_decode_utf8(data@);
            }
            Ok(data)
        },
        Err(e) => Err(CryptoError::Utf8(e)),
    }
}

/// Turns a failure into its message and leaves a success as it is.
pub fn to_tauri_error<T>(res: Result<T, CryptoError>) -> (out: Result<T, String>)
    ensures
        match res {
            Ok(value) => out == Ok::<T, String>(value),
            Err(e) => out matches Err(msg) && e.is_message(msg@),
        },
{
    match res {
        Ok(value) => Ok(value),
        Err(e) => Err(e.message()),
    }
}

/// Seals `data` under `password`, as [`_encrypt`] does, and reports a
/// failure by its message.
pub fn encrypt(data: &str, password: &str) -> (res: Result<String, String>)
    ensures
        exists|salt: Seq<char>, nonce: Seq<u8>|
            is_fresh(salt, nonce) && #[trigger] is_reported_sealing(
                res,
                data@,
                password@,
                salt,
                nonce,
            ),
        res is Ok <==> can_seal(data@, password@),
        res matches Err(msg) ==> is_message_of(sealing_failure(password@), msg@),
{
    let sealing = _encrypt(data, password);
    let ghost (salt, nonce) = choose|salt: Seq<char>, nonce: Seq<u8>|
        is_fresh(salt, nonce) && #[trigger] is_sealing(sealing, data@, password@, salt, nonce);
    let res = to_tauri_error(sealing);
    assert(is_reported_sealing(res, data@, password@, salt, nonce));
    res
}

/// Opens `encoded_data` under `password`, as [`_decrypt`] does, and reports
/// a failure by its message.
pub fn decrypt(encoded_data: &str, password: &str) -> (res: Result<String, String>)
    ensures
        match res {
            Ok(data) => opened(encoded_data@, password@) == Ok::<Seq<char>, ErrorKind>(data@),
            Err(msg) => opened(encoded_data@, password@) matches Err(kind) && is_message_of(
                kind,
                msg@,
            ),
        },
{
    to_tauri_error(_decrypt(encoded_data, password))
}

} // verus!
