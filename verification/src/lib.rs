//! Password-based authenticated encryption of short text payloads.
//!
//! [`encrypt`] seals a text under a password into one self-contained string,
//! the envelope; [`decrypt`] opens an envelope under the password it was
//! sealed with. The key is derived from the password with Argon2id under a
//! salt drawn for each envelope, and the text is encrypted with AES-256-GCM
//! under a nonce drawn for each envelope.
//!
//! The modules, from the leaves up: [`primitives`] holds the calls into the
//! cipher, the key derivation, the encoder and the random number generator;
//! [`error`] the failures; [`envelope`] the layout of salt, nonce and
//! ciphertext; [`crypto`] sealing and opening.

pub mod crypto;
pub mod envelope;
pub mod error;
pub mod primitives;

pub use crypto::{decrypt, encrypt};
pub use error::{CryptoError, ErrorKind};
