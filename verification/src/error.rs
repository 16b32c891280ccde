//! The ways in which sealing or opening an envelope can fail.

use std::string::FromUtf8Error;
use vstd::prelude::*;
use vstd::string::to_string_from_display_ensures;

verus! {

/// What went wrong, without the detail that the failing primitive reported.
///
/// This is the view of a [`CryptoError`]; contracts speak of it.
#[derive(Clone, Copy, Debug, PartialEq, Eq, Structural)]
pub enum ErrorKind {
    /// Key derivation failed: the salt is not a well-formed salt string.
    Argon2PasswordHash,
    /// Key derivation failed: the hash function refused the password or the
    /// salt.
    Argon2Lib,
    /// Authentication failed: the tag did not verify, be it for a wrong
    /// password or for a corrupted nonce, ciphertext or tag. On sealing, the
    /// cipher refused the text as too long.
    Aes,
    /// Invalid encoding: the envelope is not base64 text.
    Base64,
    /// Malformed envelope: the decoded bytes do not split into three fields,
    /// or the salt is not UTF-8 text, or the nonce is not 12 bytes long.
    Format,
    /// Invalid plaintext encoding: the recovered bytes are not UTF-8 text.
    Utf8,
}

/// A failure of sealing or opening, with what the failing primitive reported.
///
/// A tag that does not verify gives `Aes`, whatever the cause: a wrong
/// password and a corrupted envelope are not told apart, so that nothing is
/// learnt from the failure about the password.
#[derive(Debug)]
pub enum CryptoError {
    /// The salt is not a well-formed salt string.
    Argon2PasswordHash(argon2::password_hash::Error),
    /// The hash function refused the password or the salt.
    Argon2Lib(argon2::Error),
    /// The cipher refused the input.
    Aes,
    /// The envelope is not base64 text.
    Base64(base64::DecodeError),
    /// The decoded envelope does not have the layout of the format.
    Format,
    /// The recovered plaintext is not UTF-8 text.
    Utf8(FromUtf8Error),
}

impl View for CryptoError {
    type V = ErrorKind;

    open spec fn view(&self) -> ErrorKind {
        match self {
            CryptoError::Argon2PasswordHash(_) => ErrorKind::Argon2PasswordHash,
            CryptoError::Argon2Lib(_) => ErrorKind::Argon2Lib,
            CryptoError::Aes => ErrorKind::Aes,
            CryptoError::Base64(_) => ErrorKind::Base64,
            CryptoError::Format => ErrorKind::Format,
            CryptoError::Utf8(_) => ErrorKind::Utf8,
        }
    }
}

/// The fixed text that opens the message of every failure of this kind.
pub open spec fn message_head(kind: ErrorKind) -> Seq<char> {
    match kind {
        ErrorKind::Argon2PasswordHash => "Argon2 password hashing error: "@,
        ErrorKind::Argon2Lib => "Argon2 library error: "@,
        ErrorKind::Aes => "AES-GCM encryption/decryption failed"@,
        ErrorKind::Base64 => "Base64 decoding failed: "@,
        ErrorKind::Format => "Invalid encrypted data format"@,
        ErrorKind::Utf8 => "UTF-8 conversion failed: "@,
    }
}

impl CryptoError {
    /// Whether `detail` is the text in which the failing primitive describes
    /// what it reported. `Aes` and `Format` carry no report and have the
    /// empty detail.
    pub open spec fn has_detail(&self, detail: String) -> bool {
        match self {
            CryptoError::Argon2PasswordHash(e) => to_string_from_display_ensures(e, detail),
            CryptoError::Argon2Lib(e) => to_string_from_display_ensures(e, detail),
            CryptoError::Base64(e) => to_string_from_display_ensures(e, detail),
            CryptoError::Utf8(e) => to_string_from_display_ensures(e, detail),
            CryptoError::Aes | CryptoError::Format => detail@ == Seq::<char>::empty(),
        }
    }

    /// Whether `msg` is the message of this failure: the head of its kind,
    /// followed by the detail.
    pub open spec fn is_message(&self, msg: Seq<char>) -> bool {
        exists|detail: String| #[trigger]
            self.has_detail(detail) && msg == message_head(self@) + detail@
    }

    /// The kind of this failure.
    pub fn kind(&self) -> (kind: ErrorKind)
        ensures
            kind == self@,
    {
        match self {
            CryptoError::Argon2PasswordHash(_) => ErrorKind::Argon2PasswordHash,
            CryptoError::Argon2Lib(_) => ErrorKind::Argon2Lib,
            CryptoError::Aes => ErrorKind::Aes,
            CryptoError::Base64(_) => ErrorKind::Base64,
            CryptoError::Format => ErrorKind::Format,
            CryptoError::Utf8(_) => ErrorKind::Utf8,
        }
    }

    /// The message of this failure.
    pub fn message(&self) -> (msg: String)
        ensures
            self.is_message(msg@),
    {
        let detail = match self {
            CryptoError::Argon2PasswordHash(e) => e.to_string(),
            CryptoError::Argon2Lib(e) => e.to_string(),
            CryptoError::Base64(e) => e.to_string(),
            CryptoError::Utf8(e) => e.to_string(),
            CryptoError::Aes | CryptoError::Format => String::new(),
        };
        let head = match self {
            CryptoError::Argon2PasswordHash(_) => "Argon2 password hashing error: ",
            CryptoError::Argon2Lib(_) => "Argon2 library error: ",
            CryptoError::Aes => "AES-GCM encryption/decryption failed",
            CryptoError::Base64(_) => "Base64 decoding failed: ",
            CryptoError::Format => "Invalid encrypted data format",
            CryptoError::Utf8(_) => "UTF-8 conversion failed: ",
        };
        let mut msg = head.to_owned();
        msg.append(detail.as_str());
        assert(self.has_detail(detail));
        msg
    }
}

/// Every message opens with the head of its failure's kind, and the message
/// of a failure without a report is that head alone.
pub proof fn lemma_message_head(e: CryptoError, msg: Seq<char>)
    requires
        e.is_message(msg),
    ensures
        message_head(e@).is_prefix_of(msg),
        e@ == ErrorKind::Aes || e@ == ErrorKind::Format ==> msg == message_head(e@),
{
    let detail = choose|detail: String| #[trigger]
        e.has_detail(detail) && msg == message_head(e@) + detail@;
    assert(msg == message_head(e@) + detail@);
}

} // verus!
