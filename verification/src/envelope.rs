//! The envelope: salt, nonce and ciphertext laid out as one run of bytes.
//!
//! The three fields are written one after the other with the separator byte
//! `|` between them. Reading splits the bytes at every separator, so an
//! envelope can be read back only if neither its nonce nor its ciphertext
//! holds that byte; [`lemma_parse_to_bytes`] states this exactly.

use crate::error::{CryptoError, ErrorKind};
use crate::primitives::{is_valid_salt, NONCE_LEN};
use vstd::prelude::*;
use vstd::utf8::{decode_utf8, encode_utf8, is_ascii_chars, valid_utf8};

verus! {

/// The byte that stands between two fields: `|`.
pub const SEPARATOR: u8 = 0x7C;

/// How often the separator occurs in `bytes`.
pub open spec fn separator_count(bytes: Seq<u8>) -> nat
    decreases bytes.len(),
{
    if bytes.len() == 0 {
        0
    } else {
        separator_count(bytes.drop_last()) + if bytes.last() == SEPARATOR {
            1nat
        } else {
            0nat
        }
    }
}

/// The fields of `bytes`: the runs between one separator and the next, in
/// order, empty runs included. There is always one field more than there are
/// separators.
pub open spec fn fields(bytes: Seq<u8>) -> Seq<Seq<u8>>
    decreases bytes.len(),
{
    if bytes.len() == 0 {
        seq![Seq::<u8>::empty()]
    } else {
        let before = fields(bytes.drop_last());
        if bytes.last() == SEPARATOR {
            before.push(Seq::<u8>::empty())
        } else {
            before.drop_last().push(before.last().push(bytes.last()))
        }
    }
}

/// The fields written one after the other with a separator between each two.
pub open spec fn joined(parts: Seq<Seq<u8>>) -> Seq<u8>
    decreases parts.len(),
{
    if parts.len() == 0 {
        Seq::<u8>::empty()
    } else if parts.len() == 1 {
        parts[0]
    } else {
        joined(parts.drop_last()) + seq![SEPARATOR] + parts.last()
    }
}

/// The mathematical content of an [`Envelope`].
pub struct EnvelopeView {
    pub salt: Seq<char>,
    pub nonce: Seq<u8>,
    pub ciphertext: Seq<u8>,
}

impl EnvelopeView {
    /// The bytes of the envelope: the salt as UTF-8, the nonce and the
    /// ciphertext, with a separator after the first and the second.
    pub open spec fn to_bytes(self) -> Seq<u8> {
        encode_utf8(self.salt) + seq![SEPARATOR] + self.nonce + seq![SEPARATOR] + self.ciphertext
    }

    /// Whether no field holds the separator, so that splitting the bytes
    /// finds the three fields again.
    pub open spec fn is_separable(self) -> bool {
        &&& separator_count(encode_utf8(self.salt)) == 0
        &&& separator_count(self.nonce) == 0
        &&& separator_count(self.ciphertext) == 0
    }
}

/// The envelope that `bytes` hold: there are exactly three fields, the first
/// is UTF-8 text and the second has the length of a nonce.
pub open spec fn parsed(bytes: Seq<u8>) -> Option<EnvelopeView> {
    let parts = fields(bytes);
    if parts.len() == 3 && valid_utf8(parts[0]) && parts[1].len() == NONCE_LEN {
        Some(EnvelopeView { salt: decode_utf8(parts[0]), nonce: parts[1], ciphertext: parts[2] })
    } else {
        None
    }
}

/// The views of the fields collected so far.
pub open spec fn field_views(parts: Seq<Vec<u8>>) -> Seq<Seq<u8>> {
    Seq::new(parts.len(), |i: int| parts[i]@)
}

/// Splits `bytes` at every separator.
pub fn split_fields(bytes: &[u8]) -> (parts: Vec<Vec<u8>>)
    ensures
        field_views(parts@) == fields(bytes@),
{
    let mut parts: Vec<Vec<u8>> = Vec::new();
    let mut current: Vec<u8> = Vec::new();
    let mut i: usize = 0;
    while i < bytes.len()
        invariant
            i <= bytes.len(),
            field_views(parts@).push(current@) == fields(bytes@.take(i as int)),
        decreases bytes.len() - i,
    {
        let ghost before = field_views(parts@).push(current@);
        proof {
            assert(bytes@.take(i + 1).drop_last() == bytes@.take(i as int));
        }
        if bytes[i] == SEPARATOR {
            parts.push(current);
            current = Vec::new();
        } else {
            current.push(bytes[i]);
            assert(field_views(parts@).push(current@) == before.drop_last().push(
                before.last().push(bytes@[i as int]),
            ));
        }
        i += 1;
    }
    proof {
        assert(bytes@.take(i as int) == bytes@);
    }
    parts.push(current);
    parts
}

/// One sealed message: the salt the key was derived with, the nonce of the
/// encryption, and the ciphertext with its authentication tag.
pub struct Envelope {
    pub salt: String,
    pub nonce: [u8; NONCE_LEN],
    pub ciphertext: Vec<u8>,
}

impl View for Envelope {
    type V = EnvelopeView;

    open spec fn view(&self) -> EnvelopeView {
        EnvelopeView { salt: self.salt@, nonce: self.nonce@, ciphertext: self.ciphertext@ }
    }
}

impl Envelope {
    /// Lays the envelope out as bytes.
    pub fn to_bytes(&self) -> (bytes: Vec<u8>)
        ensures
            bytes@ == self@.to_bytes(),
    {
        let mut bytes: Vec<u8> = Vec::new();
        bytes.extend_from_slice(self.salt.as_str().as_bytes());
        bytes.push(SEPARATOR);
        bytes.extend_from_slice(self.nonce.as_slice());
        bytes.push(SEPARATOR);
        bytes.extend_from_slice(self.ciphertext.as_slice());
        bytes
    }

    /// Reads an envelope from `bytes`. Fails with `Format` unless the bytes
    /// split into exactly three fields of which the first is UTF-8 text and
    /// the second is 12 bytes long.
    pub fn parse(bytes: &[u8]) -> (res: Result<Envelope, CryptoError>)
        ensures
            match res {
                Ok(envelope) => parsed(bytes@) == Some(envelope@),
                Err(e) => parsed(bytes@) is None && e@ == ErrorKind::Format,
            },
    {
        let mut parts = split_fields(bytes);
        if parts.len() != 3 {
            return Err(CryptoError::Format);
        }
        let ciphertext = parts.pop().unwrap();
        let nonce_bytes = parts.pop().unwrap();
        let salt_bytes = parts.pop().unwrap();
        let salt = match String::from_utf8(salt_bytes) {
            Ok(salt) => salt,
            Err(_) => {
                return Err(CryptoError::Format);
            },
        };
        if nonce_bytes.len() != NONCE_LEN {
            return Err(CryptoError::Format);
        }
        let mut nonce = [0u8; NONCE_LEN];
        let mut i: usize = 0;
        while i < NONCE_LEN
            invariant
                i <= NONCE_LEN,
                nonce_bytes@.len() == NONCE_LEN,
                forall|j: int| 0 <= j < i ==> nonce@[j] == nonce_bytes@[j],
            decreases NONCE_LEN - i,
        {
            nonce[i] = nonce_bytes[i];
            i += 1;
        }
        proof {
            assert(nonce@ == nonce_bytes@);
            vstd::utf8::encode_utf8_decode_utf8(salt@);
        }
        Ok(Envelope { salt, nonce, ciphertext })
    }
}

/// Splitting undoes joining: the fields of `bytes` hold no separator, and
/// joined they are `bytes` again.
pub proof fn lemma_fields_join(bytes: Seq<u8>)
    ensures
        joined(fields(bytes)) == bytes,
        forall|i: int| 0 <= i < fields(bytes).len() ==> separator_count(#[trigger] fields(bytes)[i]) == 0,
    decreases bytes.len(),
{
    if bytes.len() > 0 {
        let before = fields(bytes.drop_last());
        lemma_fields_join(bytes.drop_last());
        lemma_field_count(bytes.drop_last());
        if bytes.last() == SEPARATOR {
            assert(before.push(Seq::<u8>::empty()).drop_last() == before);
            assert(joined(fields(bytes)) == bytes);
        } else {
            let last = before.last().push(bytes.last());
            assert(last.drop_last() == before.last());
            assert(before.drop_last().push(last).drop_last() == before.drop_last());
            assert(joined(fields(bytes)) == joined(before).push(bytes.last()));
            assert(joined(before).push(bytes.last()) == bytes);
        }
    }
}

/// There is one field more than there are separators.
pub proof fn lemma_field_count(bytes: Seq<u8>)
    ensures
        fields(bytes).len() == separator_count(bytes) + 1,
    decreases bytes.len(),
{
    if bytes.len() > 0 {
        lemma_field_count(bytes.drop_last());
    }
}

/// The separators of two runs of bytes add up when the runs are joined.
pub proof fn lemma_separator_count_add(a: Seq<u8>, b: Seq<u8>)
    ensures
        separator_count(a + b) == separator_count(a) + separator_count(b),
    decreases b.len(),
{
    if b.len() > 0 {
        assert((a + b).drop_last() == a + b.drop_last());
        lemma_separator_count_add(a, b.drop_last());
    }
}

/// A run of bytes is free of separators exactly when the separator is not
/// among them.
pub proof fn lemma_separator_count_zero(bytes: Seq<u8>)
    ensures
        separator_count(bytes) == 0 <==> !bytes.contains(SEPARATOR),
    decreases bytes.len(),
{
    if bytes.len() > 0 {
        lemma_separator_count_zero(bytes.drop_last());
        if bytes.last() != SEPARATOR && bytes.contains(SEPARATOR) {
            let i = choose|i: int| 0 <= i < bytes.len() && bytes[i] == SEPARATOR;
            assert(bytes.drop_last()[i] == SEPARATOR);
        }
    }
}

/// Bytes without a separator are one field.
pub proof fn lemma_fields_of_one(bytes: Seq<u8>)
    requires
        separator_count(bytes) == 0,
    ensures
        fields(bytes) == seq![bytes],
    decreases bytes.len(),
{
    if bytes.len() == 0 {
        assert(bytes == Seq::<u8>::empty());
    } else {
        lemma_fields_of_one(bytes.drop_last());
        assert(bytes.drop_last().push(bytes.last()) == bytes);
    }
}

/// What follows the last separator is the last field, and what precedes it
/// splits into the fields before.
pub proof fn lemma_fields_of_last(front: Seq<u8>, back: Seq<u8>)
    requires
        separator_count(back) == 0,
    ensures
        fields(front + seq![SEPARATOR] + back) == fields(front).push(back),
    decreases back.len(),
{
    let whole = front + seq![SEPARATOR] + back;
    if back.len() == 0 {
        assert(whole.drop_last() == front);
        assert(back == Seq::<u8>::empty());
    } else {
        lemma_fields_of_last(front, back.drop_last());
        assert(whole.drop_last() == front + seq![SEPARATOR] + back.drop_last());
        assert(back.drop_last().push(back.last()) == back);
    }
}

/// No character of a salt encodes to the separator.
pub proof fn lemma_salt_has_no_separator(salt: Seq<char>)
    requires
        is_valid_salt(salt),
    ensures
        separator_count(encode_utf8(salt)) == 0,
        encode_utf8(salt).len() == salt.len(),
{
    assert(is_ascii_chars(salt));
    vstd::utf8::is_ascii_chars_encode_utf8(salt);
    lemma_separator_count_zero(encode_utf8(salt));
}

/// Reading what was laid out gives the envelope back exactly when no field
/// holds the separator; otherwise the bytes split into more than three
/// fields and reading fails.
pub proof fn lemma_parse_to_bytes(envelope: EnvelopeView)
    requires
        envelope.nonce.len() == NONCE_LEN,
    ensures
        envelope.is_separable() ==> parsed(envelope.to_bytes()) == Some(envelope),
        !envelope.is_separable() ==> parsed(envelope.to_bytes()) is None,
{
    let salt = encode_utf8(envelope.salt);
    let front = salt + seq![SEPARATOR] + envelope.nonce;
    let bytes = envelope.to_bytes();
    lemma_field_count(bytes);
    lemma_separator_count_add(front + seq![SEPARATOR], envelope.ciphertext);
    lemma_separator_count_add(front, seq![SEPARATOR]);
    lemma_separator_count_add(salt + seq![SEPARATOR], envelope.nonce);
    lemma_separator_count_add(salt, seq![SEPARATOR]);
    assert(separator_count(seq![SEPARATOR]) == 1) by {
        reveal_with_fuel(separator_count, 2);
    }
    if envelope.is_separable() {
        lemma_fields_of_last(front, envelope.ciphertext);
        lemma_fields_of_last(salt, envelope.nonce);
        lemma_fields_of_one(salt);
        vstd::utf8::encode_utf8_valid_utf8(envelope.salt);
        vstd::utf8::encode_utf8_decode_utf8(envelope.salt);
    }
}

} // verus!
