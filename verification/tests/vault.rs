use aes_gcm::aead::{Aead, KeyInit};
use aes_gcm::{Aes256Gcm, Nonce};
use argon2::Argon2;
use base64::engine::general_purpose::STANDARD;
use base64::Engine;
use vault_crypto::crypto::{
    _decrypt, _encrypt, decrypt, derive_key, encrypt, plaintext_limit, seal_with,
};
use vault_crypto::error::ErrorKind;

const PASSWORD: &str = "correct-password";
const SALT: &str = "c29tZXNhbHRzb21lc2FsdA";

fn separators(bytes: &[u8]) -> usize {
    bytes.iter().filter(|b| **b == b'|').count()
}

fn key_of(password: &str, salt: &str) -> [u8; 32] {
    let mut key = [0u8; 32];
    Argon2::default()
        .hash_password_into(password.as_bytes(), salt.as_bytes(), &mut key)
        .unwrap();
    key
}

fn text_of(salt: &[u8], nonce: &[u8], ciphertext: &[u8]) -> String {
    let mut bytes = salt.to_vec();
    bytes.push(b'|');
    bytes.extend_from_slice(nonce);
    bytes.push(b'|');
    bytes.extend_from_slice(ciphertext);
    STANDARD.encode(bytes)
}

/// Seals with nonces of one repeated byte until the envelope has no
/// separator but the two of the layout, and returns the text and the nonce.
fn readable(data: &str, password: &str) -> (String, [u8; 12]) {
    for byte in 0u8..=255 {
        if byte == b'|' {
            continue;
        }
        let nonce = [byte; 12];
        let text = seal_with(data, password, SALT, &nonce).unwrap();
        if separators(&STANDARD.decode(&text).unwrap()) == 2 {
            return (text, nonce);
        }
    }
    panic!("no nonce gave a readable envelope");
}

/// Encrypts by hand, with nonces of one repeated byte until the ciphertext
/// holds no separator, and returns the envelope's text.
fn sealed_by_hand(plaintext: &[u8], password: &str, salt: &str) -> String {
    let cipher = Aes256Gcm::new(&key_of(password, salt).into());
    for byte in 0u8..=255 {
        if byte == b'|' {
            continue;
        }
        let nonce = [byte; 12];
        let ciphertext = cipher.encrypt(Nonce::from_slice(&nonce), plaintext).unwrap();
        if !ciphertext.contains(&b'|') {
            return text_of(salt.as_bytes(), &nonce, &ciphertext);
        }
    }
    panic!("no nonce gave a ciphertext without separator");
}

#[test]
fn round_trip_restores_the_text() {
    let (text, _) = readable("attack at dawn", PASSWORD);
    assert_eq!(_decrypt(&text, PASSWORD).unwrap(), "attack at dawn");
    assert_eq!(decrypt(&text, PASSWORD), Ok("attack at dawn".to_string()));
}

#[test]
fn round_trip_restores_text_beyond_ascii() {
    let data = "h\u{e9}llo w\u{f6}rld \u{2713} \u{1F512}";
    let (text, _) = readable(data, "p\u{e4}ssw\u{f6}rd");
    assert_eq!(decrypt(&text, "p\u{e4}ssw\u{f6}rd"), Ok(data.to_string()));
}

#[test]
fn empty_text_round_trips() {
    let (text, _) = readable("", PASSWORD);
    assert_eq!(decrypt(&text, PASSWORD), Ok(String::new()));
}

#[test]
fn empty_password_round_trips() {
    let (text, _) = readable("secret", "");
    assert_eq!(decrypt(&text, ""), Ok("secret".to_string()));
}

#[test]
fn wrong_password_is_rejected() {
    let (text, _) = readable("attack at dawn", PASSWORD);
    let err = _decrypt(&text, "wrong-password").err().unwrap();
    assert_eq!(err.kind(), ErrorKind::Aes);
    assert_eq!(
        decrypt(&text, "wrong-password"),
        Err("AES-GCM encryption/decryption failed".to_string())
    );
}

#[test]
fn tampered_ciphertext_is_rejected() {
    let (text, _) = readable("attack at dawn", PASSWORD);
    let bytes = STANDARD.decode(&text).unwrap();
    let first = SALT.len() + 1 + 12 + 1;
    for position in [first, first + 7, bytes.len() - 1] {
        let mut tampered = bytes.clone();
        tampered[position] ^= 0x01;
        if tampered[position] == b'|' {
            tampered[position] ^= 0x03;
        }
        let err = _decrypt(&STANDARD.encode(&tampered), PASSWORD).err().unwrap();
        assert_eq!(err.kind(), ErrorKind::Aes);
    }
}

#[test]
fn tampering_with_the_separator_byte_breaks_the_layout() {
    let (text, _) = readable("attack at dawn", PASSWORD);
    let mut bytes = STANDARD.decode(&text).unwrap();
    let last = bytes.len() - 1;
    bytes[last] = b'|';
    let err = _decrypt(&STANDARD.encode(&bytes), PASSWORD).err().unwrap();
    assert_eq!(err.kind(), ErrorKind::Format);
}

#[test]
fn tampered_nonce_is_rejected() {
    let (text, _) = readable("attack at dawn", PASSWORD);
    let mut bytes = STANDARD.decode(&text).unwrap();
    bytes[SALT.len() + 1] ^= 0x01;
    if bytes[SALT.len() + 1] == b'|' {
        bytes[SALT.len() + 1] ^= 0x03;
    }
    let err = _decrypt(&STANDARD.encode(&bytes), PASSWORD).err().unwrap();
    assert_eq!(err.kind(), ErrorKind::Aes);
}

#[test]
fn two_sealings_differ_and_both_open() {
    let first = encrypt("attack at dawn", PASSWORD).unwrap();
    let second = encrypt("attack at dawn", PASSWORD).unwrap();
    assert_ne!(first, second);
    for text in [first, second] {
        let opened = decrypt(&text, PASSWORD);
        if separators(&STANDARD.decode(&text).unwrap()) == 2 {
            assert_eq!(opened, Ok("attack at dawn".to_string()));
        } else {
            assert_eq!(opened, Err("Invalid encrypted data format".to_string()));
        }
    }
}

#[test]
fn hello_world_scenario() {
    let mut envelope = encrypt("hello world", "correct-password").unwrap();
    let mut attempts = 1;
    while separators(&STANDARD.decode(&envelope).unwrap()) != 2 {
        assert!(attempts < 8, "eight envelopes in a row held a separator");
        envelope = encrypt("hello world", "correct-password").unwrap();
        attempts += 1;
    }
    assert_eq!(decrypt(&envelope, "correct-password"), Ok("hello world".to_string()));
    assert_eq!(
        decrypt(&envelope, "wrong-password"),
        Err("AES-GCM encryption/decryption failed".to_string())
    );
    let refused = decrypt("not-base64!!", "any").unwrap_err();
    assert!(refused.starts_with("Base64 decoding failed: "));
}

#[test]
fn a_fresh_envelope_has_the_layout_of_the_format() {
    let data = "hello world";
    let text = _encrypt(data, PASSWORD).unwrap();
    let bytes = STANDARD.decode(&text).unwrap();
    assert_eq!(bytes.len(), 22 + 1 + 12 + 1 + data.len() + 16);
    assert_eq!(bytes[22], b'|');
    assert_eq!(bytes[35], b'|');
    let salt = std::str::from_utf8(&bytes[..22]).unwrap();
    assert!(salt.chars().all(|c| c.is_ascii_alphanumeric() || c == '+' || c == '/'));
    let cipher = Aes256Gcm::new(&key_of(PASSWORD, salt).into());
    let plaintext = cipher.decrypt(Nonce::from_slice(&bytes[23..35]), &bytes[36..]).unwrap();
    assert_eq!(plaintext, data.as_bytes());
}

#[test]
fn sealing_is_fixed_by_salt_and_nonce() {
    let nonce = [7u8; 12];
    let first = seal_with("attack at dawn", PASSWORD, SALT, &nonce).unwrap();
    let second = seal_with("attack at dawn", PASSWORD, SALT, &nonce).unwrap();
    assert_eq!(first, second);
    let cipher = Aes256Gcm::new(&key_of(PASSWORD, SALT).into());
    let ciphertext = cipher.encrypt(Nonce::from_slice(&nonce), &b"attack at dawn"[..]).unwrap();
    assert_eq!(ciphertext.len(), 14 + 16);
    assert_eq!(first, text_of(SALT.as_bytes(), &nonce, &ciphertext));
}

#[test]
fn sealing_depends_on_nonce_salt_and_password() {
    let nonce = [7u8; 12];
    let base = seal_with("attack at dawn", PASSWORD, SALT, &nonce).unwrap();
    assert_ne!(base, seal_with("attack at dawn", PASSWORD, SALT, &[8u8; 12]).unwrap());
    assert_ne!(base, seal_with("attack at dawn", PASSWORD, "b3RoZXJzYWx0b3RoZXJzYQ", &nonce).unwrap());
    assert_ne!(base, seal_with("attack at dawn", "other-password", SALT, &nonce).unwrap());
}

#[test]
fn a_separator_in_the_nonce_makes_the_envelope_unreadable() {
    let mut nonce = [7u8; 12];
    nonce[3] = b'|';
    let text = seal_with("attack at dawn", PASSWORD, SALT, &nonce).unwrap();
    let err = _decrypt(&text, PASSWORD).err().unwrap();
    assert_eq!(err.kind(), ErrorKind::Format);
}

#[test]
fn sealing_refuses_a_malformed_salt() {
    let nonce = [7u8; 12];
    for salt in ["", "abc", "with|bar", "under_score", "sp ace"] {
        let err = seal_with("data", PASSWORD, salt, &nonce).err().unwrap();
        assert_eq!(err.kind(), ErrorKind::Argon2PasswordHash);
    }
    let long = "a".repeat(65);
    let err = seal_with("data", PASSWORD, &long, &nonce).err().unwrap();
    assert_eq!(err.kind(), ErrorKind::Argon2PasswordHash);
}

#[test]
fn sealing_refuses_a_salt_too_short_for_the_key_derivation() {
    let err = seal_with("data", PASSWORD, "abcdefg", &[7u8; 12]).err().unwrap();
    assert_eq!(err.kind(), ErrorKind::Argon2Lib);
    assert_eq!(err.message(), "Argon2 library error: salt is too short");
}

#[test]
fn sealing_takes_salts_of_eight_to_sixty_four_characters() {
    let nonce = [7u8; 12];
    assert!(seal_with("data", PASSWORD, "abcdefgh", &nonce).is_ok());
    assert!(seal_with("data", PASSWORD, &"a".repeat(64), &nonce).is_ok());
    assert!(seal_with("data", PASSWORD, "AZaz09/+.-", &nonce).is_ok());
}

#[test]
fn derive_key_is_the_argon2id_hash() {
    let key = derive_key(PASSWORD.as_bytes(), SALT).unwrap();
    assert_eq!(key, key_of(PASSWORD, SALT));
    assert_eq!(key, derive_key(PASSWORD.as_bytes(), SALT).unwrap());
    assert_ne!(key, derive_key(b"other-password", SALT).unwrap());
    assert_ne!(key, derive_key(PASSWORD.as_bytes(), "b3RoZXJzYWx0b3RoZXJzYQ").unwrap());
}

#[test]
fn derive_key_refuses_a_short_salt() {
    let err = derive_key(PASSWORD.as_bytes(), "abcdefg").err().unwrap();
    assert_eq!(err.kind(), ErrorKind::Argon2Lib);
    assert!(derive_key(PASSWORD.as_bytes(), "abcdefgh").is_ok());
}

#[test]
fn opens_an_envelope_sealed_by_hand() {
    let text = sealed_by_hand("sealed elsewhere".as_bytes(), PASSWORD, SALT);
    assert_eq!(decrypt(&text, PASSWORD), Ok("sealed elsewhere".to_string()));
}

#[test]
fn plaintext_that_is_not_text_is_refused() {
    let text = sealed_by_hand(&[0x66, 0x6F, 0xFF, 0x6F], PASSWORD, SALT);
    let err = _decrypt(&text, PASSWORD).err().unwrap();
    assert_eq!(err.kind(), ErrorKind::Utf8);
    assert!(decrypt(&text, PASSWORD).unwrap_err().starts_with("UTF-8 conversion failed: "));
}

#[test]
fn plaintext_limit_is_the_limit_of_the_cipher_where_it_fits() {
    if usize::BITS == 64 {
        assert_eq!(plaintext_limit() as u64, 1u64 << 36);
    } else {
        assert_eq!(plaintext_limit(), (isize::MAX as usize) / 4 * 3 - 94);
    }
}
