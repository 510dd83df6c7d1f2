//! Encryption of single fields.
//!
//! An encrypted field is text of one of two forms, where the payload is a nonce followed by a
//! ciphertext:
//!
//! ```text
//! ENC:<base64(payload)>
//! ENC:v1:<base64(salt)>:<base64(payload)>
//! ```
use crate::error::{Error, Fault};
use crate::outside::{MAX_MESSAGE_LEN, TAG_SIZE};
use base64::DecodeError;
use chacha20poly1305::aead::Error as AeadError;
use vstd::prelude::*;

verus! {

/// Field encryption prefix: what an encrypted field starts with.
pub const FIELD_ENCRYPTED_PREFIX: &'static str = "ENC:";

/// What an encrypted field with an embedded salt starts with.
pub const FIELD_SALTED_PREFIX: &'static str = "ENC:v1:";

/// Bytes of a nonce.
pub const NONCE_SIZE: usize = 12;

/// Bytes of a key.
pub const KEY_SIZE: usize = 32;

// ---------------------------------------------------------------------------------------------
// The form of a field
// ---------------------------------------------------------------------------------------------

/// The form of a field, as contracts speak of it.
pub enum FieldShape {
    /// Not encrypted.
    Plain,
    /// The base64 text of a payload.
    Bare(Seq<char>),
    /// The base64 texts of a salt and a payload.
    Salted(Seq<char>, Seq<char>),
    /// The prefix for a salt and a payload, without the colon between them.
    Incomplete,
}

/// The form of a field. A colon ends the salt; what follows it is the payload.
pub open spec fn field_shape(text: Seq<char>) -> FieldShape {
    if !FIELD_ENCRYPTED_PREFIX@.is_prefix_of(text) {
        FieldShape::Plain
    } else if !FIELD_SALTED_PREFIX@.is_prefix_of(text) {
        FieldShape::Bare(text.skip(FIELD_ENCRYPTED_PREFIX@.len() as int))
    } else {
        match crate::text::split_at_first(text.skip(FIELD_SALTED_PREFIX@.len() as int), ':') {
            Some((salt, payload)) => FieldShape::Salted(salt, payload),
            None => FieldShape::Incomplete,
        }
    }
}

/// The form of a field.
pub enum FieldForm<'a> {
    /// Not encrypted.
    Plain,
    /// The base64 text of a payload.
    Bare(&'a str),
    /// The base64 texts of a salt and a payload.
    Salted(&'a str, &'a str),
    /// The prefix for a salt and a payload, without the colon between them.
    Incomplete,
}

impl<'a> View for FieldForm<'a> {
    type V = FieldShape;

    open spec fn view(&self) -> FieldShape {
        match self {
            FieldForm::Plain => FieldShape::Plain,
            FieldForm::Bare(payload) => FieldShape::Bare(payload@),
            FieldForm::Salted(salt, payload) => FieldShape::Salted(salt@, payload@),
            FieldForm::Incomplete => FieldShape::Incomplete,
        }
    }
}

/// Tells the form of a field.
pub fn field_form<'a>(text: &'a str) -> (form: FieldForm<'a>)
    ensures
        form@ == field_shape(text@),
{
    match crate::text::strip_prefix(text, FIELD_ENCRYPTED_PREFIX) {
        None => FieldForm::Plain,
        Some(encoded) => match crate::text::strip_prefix(text, FIELD_SALTED_PREFIX) {
            None => FieldForm::Bare(encoded),
            Some(body) => match crate::text::split_once(body, ':') {
                Some((salt, payload)) => FieldForm::Salted(salt, payload),
                None => FieldForm::Incomplete,
            },
        },
    }
}

/// The field of a payload's base64 text.
pub fn bare_field(encoded: &str) -> (field: String)
    ensures
        field@ == FIELD_ENCRYPTED_PREFIX@ + encoded@,
{
    FIELD_ENCRYPTED_PREFIX.to_string().concat(encoded)
}

/// The field of a salt's and a payload's base64 texts.
pub fn salted_field(salt: &str, encoded: &str) -> (field: String)
    ensures
        field@ == FIELD_SALTED_PREFIX@ + salt@ + ":"@ + encoded@,
{
    FIELD_SALTED_PREFIX.to_string().concat(salt).concat(":").concat(encoded)
}

/// A field is read in the form in which it was written: a payload's text does not look like a salt
/// where it has no colon.
pub proof fn law_bare_field_shape(encoded: Seq<char>)
    requires
        forall|i: int| 0 <= i < encoded.len() ==> encoded[i] != ':',
    ensures
        field_shape(FIELD_ENCRYPTED_PREFIX@ + encoded) == FieldShape::Bare(encoded),
{
    let text = FIELD_ENCRYPTED_PREFIX@ + encoded;
    reveal_strlit("ENC:");
    reveal_strlit("ENC:v1:");
    assert(text.take(4) =~= FIELD_ENCRYPTED_PREFIX@);
    assert(text.skip(4) =~= encoded);
    if FIELD_SALTED_PREFIX@.is_prefix_of(text) {
        assert(text.take(7)[6] == FIELD_SALTED_PREFIX@[6]);
        assert(text[6] == encoded[2]);
    }
}

/// A field with a salt is read in the form in which it was written, where the salt's text has no
/// colon.
pub proof fn law_salted_field_shape(salt: Seq<char>, encoded: Seq<char>)
    requires
        forall|i: int| 0 <= i < salt.len() ==> salt[i] != ':',
    ensures
        field_shape(FIELD_SALTED_PREFIX@ + salt + ":"@ + encoded) == FieldShape::Salted(
            salt,
            encoded,
        ),
{
    let text = FIELD_SALTED_PREFIX@ + salt + ":"@ + encoded;
    reveal_strlit("ENC:");
    reveal_strlit("ENC:v1:");
    reveal_strlit(":");
    assert(text.take(7) =~= FIELD_SALTED_PREFIX@);
    assert(text.take(4) =~= FIELD_ENCRYPTED_PREFIX@);
    let body = text.skip(7);
    let i = salt.len() as int;
    assert(body =~= salt + ":"@ + encoded);
    assert forall|j: int| 0 <= j < i implies body[j] != ':' by {
        assert(body[j] == salt[j]);
    }
    assert(body[i] == ':');
    crate::text::lemma_split_at_first(body, ':', i);
    assert(body.take(i) =~= salt);
    assert(body.skip(i + 1) =~= encoded);
}

// ---------------------------------------------------------------------------------------------
// What fields hold
// ---------------------------------------------------------------------------------------------

/// What a payload, a nonce followed by a ciphertext, holds under `key`. The cipher takes no message
/// that is longer than it can number blocks for.
pub open spec fn payload_text(payload: Seq<u8>, key: Seq<u8>) -> Result<Seq<char>, Fault> {
    if payload.len() < NONCE_SIZE {
        Err(Fault::FieldLength(payload.len()))
    } else if payload.len() > NONCE_SIZE + MAX_MESSAGE_LEN + TAG_SIZE {
        Err(Fault::FieldOverlong)
    } else {
        opened_text(
            crate::outside::aead_opened(
                key,
                payload.take(NONCE_SIZE as int),
                payload.skip(NONCE_SIZE as int),
            ),
        )
    }
}

/// The text that an opened message is.
pub open spec fn opened_text(opened: Result<Seq<u8>, AeadError>) -> Result<Seq<char>, Fault> {
    match opened {
        Err(err) => Err(Fault::FieldOpening(err)),
        Ok(bytes) => if vstd::utf8::valid_utf8(bytes) {
            Ok(vstd::utf8::decode_utf8(bytes))
        } else {
            Err(Fault::FieldText(crate::outside::utf8_failure(bytes)))
        },
    }
}

/// What the base64 text of a payload holds under `key`.
pub open spec fn encoded_payload_text(encoded: Seq<char>, key: Seq<u8>) -> Result<Seq<char>, Fault> {
    match crate::outside::base64_decoded(encoded) {
        Err(err) => Err(Fault::FieldEncoding(err)),
        Ok(payload) => payload_text(payload, key),
    }
}

/// What a field holds under `key` if all behind the prefix is its payload; nothing where the field
/// is not encrypted.
pub open spec fn field_text(text: Seq<char>, key: Seq<u8>) -> Result<Option<Seq<char>>, Fault> {
    if !FIELD_ENCRYPTED_PREFIX@.is_prefix_of(text) {
        Ok(None)
    } else {
        match encoded_payload_text(text.skip(FIELD_ENCRYPTED_PREFIX@.len() as int), key) {
            Err(fault) => Err(fault),
            Ok(plaintext) => Ok(Some(plaintext)),
        }
    }
}

/// The salt and what is held under `key` in a field with an embedded salt; nothing where the field
/// has none.
pub open spec fn salted_field_text(text: Seq<char>, key: Seq<u8>) -> Result<
    Option<(Seq<u8>, Seq<char>)>,
    Fault,
> {
    match field_shape(text) {
        FieldShape::Plain => Ok(None),
        FieldShape::Bare(_) => Ok(None),
        FieldShape::Incomplete => Err(Fault::FieldParts),
        FieldShape::Salted(salt, payload) => match crate::outside::base64_decoded(salt) {
            Err(err) => Err(Fault::SaltEncoding(err)),
            Ok(salt) => match encoded_payload_text(payload, key) {
                Err(fault) => Err(fault),
                Ok(plaintext) => Ok(Some((salt, plaintext))),
            },
        },
    }
}

/// The salt embedded in a field, if there is one.
pub open spec fn field_salt(text: Seq<char>) -> Result<Option<Seq<u8>>, Fault> {
    match field_shape(text) {
        FieldShape::Plain => Ok(None),
        FieldShape::Bare(_) => Ok(None),
        FieldShape::Incomplete => Err(Fault::SaltParts),
        FieldShape::Salted(salt, _) => match crate::outside::base64_decoded(salt) {
            Err(err) => Err(Fault::SaltEncoding(err)),
            Ok(salt) => Ok(Some(salt)),
        },
    }
}

/// What a field of either form holds under `key`; nothing where the field is not encrypted.
pub open spec fn any_field_text(text: Seq<char>, key: Seq<u8>) -> Result<Option<Seq<char>>, Fault> {
    match field_shape(text) {
        FieldShape::Plain => Ok(None),
        FieldShape::Incomplete => Err(Fault::FieldParts),
        FieldShape::Bare(payload) => match encoded_payload_text(payload, key) {
            Err(fault) => Err(fault),
            Ok(plaintext) => Ok(Some(plaintext)),
        },
        FieldShape::Salted(salt, payload) => match crate::outside::base64_decoded(salt) {
            Err(err) => Err(Fault::SaltEncoding(err)),
            Ok(_) => match encoded_payload_text(payload, key) {
                Err(fault) => Err(fault),
                Ok(plaintext) => Ok(Some(plaintext)),
            },
        },
    }
}

/// A plaintext that can be encrypted: it is short enough for the cipher, and its field can be held
/// in memory.
pub open spec fn field_sealable(plaintext: Seq<char>) -> bool {
    let len = vstd::utf8::encode_utf8(plaintext).len() as int;
    &&& len <= MAX_MESSAGE_LEN
    &&& crate::outside::base64_fits(NONCE_SIZE + len + TAG_SIZE)
}

/// The payload that holds `plaintext` under `key` and `nonce`.
pub open spec fn sealed_payload(plaintext: Seq<char>, key: Seq<u8>, nonce: Seq<u8>) -> Result<
    Seq<u8>,
    Fault,
> {
    if !field_sealable(plaintext) {
        Err(Fault::PlaintextOverlong)
    } else {
        match crate::outside::aead_sealed(key, nonce, vstd::utf8::encode_utf8(plaintext)) {
            Err(err) => Err(Fault::FieldSealing(err)),
            Ok(sealed) => Ok(nonce + sealed),
        }
    }
}

/// The field that holds `plaintext` under `key` and `nonce`, without a salt.
pub open spec fn sealed_field(plaintext: Seq<char>, key: Seq<u8>, nonce: Seq<u8>) -> Result<
    Seq<char>,
    Fault,
> {
    match sealed_payload(plaintext, key, nonce) {
        Err(fault) => Err(fault),
        Ok(payload) => Ok(FIELD_ENCRYPTED_PREFIX@ + crate::outside::base64_text(payload)),
    }
}

/// The field that holds `plaintext` under `key` and `nonce`, with `salt` embedded.
pub open spec fn sealed_salted_field(
    plaintext: Seq<char>,
    key: Seq<u8>,
    nonce: Seq<u8>,
    salt: Seq<u8>,
) -> Result<Seq<char>, Fault> {
    if !crate::outside::base64_fits(salt.len() as int) {
        Err(Fault::PlaintextOverlong)
    } else {
        match sealed_payload(plaintext, key, nonce) {
            Err(fault) => Err(fault),
            Ok(payload) => Ok(
                FIELD_SALTED_PREFIX@ + crate::outside::base64_text(salt) + ":"@
                    + crate::outside::base64_text(payload),
            ),
        }
    }
}

/// `text` is a field without a salt that gives `plaintext` back under `key`.
pub open spec fn reads_back(text: Seq<char>, plaintext: Seq<char>, key: Seq<u8>) -> bool {
    &&& field_text(text, key) matches Ok(Some(found)) && found == plaintext
    &&& any_field_text(text, key) matches Ok(Some(found)) && found == plaintext
    &&& field_salt(text) matches Ok(None)
}

/// `text` is a field with an embedded salt that gives `salt` back, and `plaintext` under `key`.
pub open spec fn reads_back_salted(
    text: Seq<char>,
    plaintext: Seq<char>,
    key: Seq<u8>,
    salt: Seq<u8>,
) -> bool {
    &&& salted_field_text(text, key) matches Ok(Some((found_salt, found))) && found_salt == salt
        && found == plaintext
    &&& any_field_text(text, key) matches Ok(Some(found)) && found == plaintext
    &&& field_salt(text) matches Ok(Some(found_salt)) && found_salt == salt
}

/// Bytes of the payload of a plaintext: its nonce, its bytes and its tag.
pub open spec fn payload_len(plaintext: Seq<char>) -> int {
    NONCE_SIZE + vstd::utf8::encode_utf8(plaintext).len() + TAG_SIZE
}

/// `encoded` is the base64 text, the only one, of a payload that holds `plaintext` under `key` and is
/// as long as that takes.
pub open spec fn payload_encoded(encoded: Seq<char>, plaintext: Seq<char>, key: Seq<u8>) -> bool {
    &&& crate::outside::base64_symbols(encoded)
    &&& encoded.len() == crate::outside::base64_len(payload_len(plaintext))
    &&& crate::outside::base64_decoded(encoded) matches Ok(payload) && {
        &&& encoded == crate::outside::base64_text(payload)
        &&& payload.len() == payload_len(plaintext)
        &&& payload_text(payload, key) matches Ok(found) && found == plaintext
    }
}

/// `encoded` is the base64 text, the only one, of `salt`.
pub open spec fn salt_encoded(encoded: Seq<char>, salt: Seq<u8>) -> bool {
    &&& crate::outside::base64_symbols(encoded)
    &&& encoded.len() == crate::outside::base64_len(salt.len() as int)
    &&& encoded == crate::outside::base64_text(salt)
}

/// `text` is written as a field without a salt that holds `plaintext` under `key`: the prefix and the
/// base64 text of its payload.
pub open spec fn written_bare(text: Seq<char>, plaintext: Seq<char>, key: Seq<u8>) -> bool {
    &&& field_shape(text) matches FieldShape::Bare(encoded) && payload_encoded(
        encoded,
        plaintext,
        key,
    )
    &&& text.len() == FIELD_ENCRYPTED_PREFIX@.len() + crate::outside::base64_len(
        payload_len(plaintext),
    )
}

/// `text` is written as a field with the embedded salt `salt` that holds `plaintext` under `key`: the
/// prefix and the base64 texts of the salt and the payload, with a colon between them and no other.
pub open spec fn written_salted(
    text: Seq<char>,
    plaintext: Seq<char>,
    key: Seq<u8>,
    salt: Seq<u8>,
) -> bool {
    &&& field_shape(text) matches FieldShape::Salted(salt_text, encoded) && {
        &&& salt_encoded(salt_text, salt)
        &&& payload_encoded(encoded, plaintext, key)
    }
    &&& text.len() == FIELD_SALTED_PREFIX@.len() + crate::outside::base64_len(salt.len() as int) + 1
        + crate::outside::base64_len(payload_len(plaintext))
}

// ---------------------------------------------------------------------------------------------
// How operations end
// ---------------------------------------------------------------------------------------------

/// An operation that yields text ended as `model` says.
pub open spec fn text_outcome(result: Result<String, Error>, model: Result<Seq<char>, Fault>) -> bool {
    match (result, model) {
        (Ok(text), Ok(expected)) => text@ == expected,
        (Err(err), Err(fault)) => err.reports(fault),
        _ => false,
    }
}

/// An operation that may yield text ended as `model` says.
pub open spec fn optional_text_outcome(
    result: Result<Option<String>, Error>,
    model: Result<Option<Seq<char>>, Fault>,
) -> bool {
    match (result, model) {
        (Ok(Some(text)), Ok(Some(expected))) => text@ == expected,
        (Ok(None), Ok(None)) => true,
        (Err(err), Err(fault)) => err.reports(fault),
        _ => false,
    }
}

/// An operation that may yield a salt and text ended as `model` says.
pub open spec fn salted_outcome(
    result: Result<Option<(Vec<u8>, String)>, Error>,
    model: Result<Option<(Seq<u8>, Seq<char>)>, Fault>,
) -> bool {
    match (result, model) {
        (Ok(Some((salt, text))), Ok(Some((expected_salt, expected)))) => salt@ == expected_salt
            && text@ == expected,
        (Ok(None), Ok(None)) => true,
        (Err(err), Err(fault)) => err.reports(fault),
        _ => false,
    }
}

/// An operation that yields bytes ended as `model` says.
pub open spec fn bytes_outcome(result: Result<Vec<u8>, Error>, model: Result<Seq<u8>, Fault>) -> bool {
    match (result, model) {
        (Ok(bytes), Ok(expected)) => bytes@ == expected,
        (Err(err), Err(fault)) => err.reports(fault),
        _ => false,
    }
}

/// An operation that may yield bytes ended as `model` says.
pub open spec fn optional_bytes_outcome(
    result: Result<Option<Vec<u8>>, Error>,
    model: Result<Option<Seq<u8>>, Fault>,
) -> bool {
    match (result, model) {
        (Ok(Some(bytes)), Ok(Some(expected))) => bytes@ == expected,
        (Ok(None), Ok(None)) => true,
        (Err(err), Err(fault)) => err.reports(fault),
        _ => false,
    }
}

/// `result` is what `decrypt_field` makes of the field `text` under `key`. Text that it decrypts is
/// written as a field without a salt is.
pub open spec fn decrypts_bare(
    result: Result<Option<String>, Error>,
    text: Seq<char>,
    key: Seq<u8>,
) -> bool {
    &&& optional_text_outcome(result, field_text(text, key))
    &&& result matches Ok(Some(plaintext)) ==> written_bare(text, plaintext@, key)
}

/// `result` is what `decrypt_field_with_salt` makes of the field `text` under `key`. Text that it
/// decrypts is written as a field with a salt is.
pub open spec fn decrypts_salted(
    result: Result<Option<(Vec<u8>, String)>, Error>,
    text: Seq<char>,
    key: Seq<u8>,
) -> bool {
    &&& salted_outcome(result, salted_field_text(text, key))
    &&& result matches Ok(Some((salt, plaintext))) ==> written_salted(
        text,
        plaintext@,
        key,
        salt@,
    )
}

/// `result` is what `decrypt_field_auto` makes of the field `text` under `key`. Text that it decrypts
/// is written as a field of one of the two forms is.
pub open spec fn decrypts_any(
    result: Result<Option<String>, Error>,
    text: Seq<char>,
    key: Seq<u8>,
) -> bool {
    &&& optional_text_outcome(result, any_field_text(text, key))
    &&& result matches Ok(Some(plaintext)) ==> {
        ||| written_bare(text, plaintext@, key)
        ||| exists|salt: Seq<u8>| #[trigger] written_salted(text, plaintext@, key, salt)
    }
}

/// A field with an embedded salt is refused by `decrypt_field`, under every key: a colon is no part of
/// base64 text.
pub proof fn law_salted_field_is_refused_without_salt(
    text: Seq<char>,
    plaintext: Seq<char>,
    sealing_key: Seq<u8>,
    salt: Seq<u8>,
    key: Seq<u8>,
    result: Result<Option<String>, Error>,
)
    requires
        reads_back_salted(text, plaintext, sealing_key, salt),
        decrypts_bare(result, text, key),
    ensures
        result matches Err(Error::ProfileDecryption { .. }),
{
}

/// A field of either form whose payload has no room for a nonce and a tag is refused under every key,
/// by the function that decrypts its form and by `decrypt_field_auto`.
pub proof fn law_short_payload_is_refused(
    text: Seq<char>,
    encoded: Seq<char>,
    payload: Seq<u8>,
    key: Seq<u8>,
    bare: Result<Option<String>, Error>,
    salted: Result<Option<(Vec<u8>, String)>, Error>,
    any: Result<Option<String>, Error>,
)
    requires
        match field_shape(text) {
            FieldShape::Bare(found) => found == encoded,
            FieldShape::Salted(_, found) => found == encoded,
            _ => false,
        },
        crate::outside::gives(crate::outside::base64_decoded(encoded), payload),
        payload.len() < NONCE_SIZE + TAG_SIZE,
        decrypts_bare(bare, text, key),
        decrypts_salted(salted, text, key),
        decrypts_any(any, text, key),
    ensures
        field_shape(text) is Bare ==> (bare matches Err(Error::ProfileDecryption { .. })),
        field_shape(text) is Salted ==> (salted matches Err(Error::ProfileDecryption { .. })),
        any matches Err(Error::ProfileDecryption { .. }),
{
}

// ---------------------------------------------------------------------------------------------
// Decryption
// ---------------------------------------------------------------------------------------------

/// The payload of a field, given how its base64 text was decoded.
pub fn payload_from_decoded(decoded: Result<Vec<u8>, DecodeError>) -> (payload: Result<
    Vec<u8>,
    Error,
>)
    ensures
        match decoded {
            Ok(bytes) => payload matches Ok(found) && found@ == bytes@,
            Err(err) => payload matches Err(found) && found.reports(Fault::FieldEncoding(err)),
        },
{
    match decoded {
        Ok(payload) => Ok(payload),
        Err(err) => Err(
            Error::ProfileDecryption {
                message: crate::error::quote("invalid base64 in encrypted field: ", err),
            },
        ),
    }
}

/// The salt of a field, given how its base64 text was decoded.
pub fn salt_from_decoded(decoded: Result<Vec<u8>, DecodeError>) -> (salt: Result<Vec<u8>, Error>)
    ensures
        match decoded {
            Ok(bytes) => salt matches Ok(found) && found@ == bytes@,
            Err(err) => salt matches Err(found) && found.reports(Fault::SaltEncoding(err)),
        },
{
    match decoded {
        Ok(salt) => Ok(salt),
        Err(err) => Err(
            Error::ProfileDecryption {
                message: crate::error::quote("invalid base64 in salt: ", err),
            },
        ),
    }
}

/// Splits a payload into its nonce and its ciphertext. A payload that is too short for a nonce, or
/// too long for the cipher, is refused.
pub fn split_payload(payload: &[u8]) -> (parts: Result<(&[u8], &[u8]), Error>)
    ensures
        match parts {
            Ok((nonce, ciphertext)) => {
                &&& NONCE_SIZE <= payload@.len() <= NONCE_SIZE + MAX_MESSAGE_LEN + TAG_SIZE
                &&& nonce@ == payload@.take(NONCE_SIZE as int)
                &&& ciphertext@ == payload@.skip(NONCE_SIZE as int)
            },
            Err(err) => if payload@.len() < NONCE_SIZE {
                err.reports(Fault::FieldLength(payload@.len()))
            } else {
                payload@.len() > NONCE_SIZE + MAX_MESSAGE_LEN + TAG_SIZE && err.reports(
                    Fault::FieldOverlong,
                )
            },
        },
{
    if payload.len() < NONCE_SIZE {
        return Err(
            Error::ProfileDecryption {
                message: "encrypted field too short: expected at least 12 bytes, got ".to_string()
                    .concat(crate::text::decimal(payload.len()).as_str()),
            },
        );
    }
    if payload.len() as u64 - NONCE_SIZE as u64 > MAX_MESSAGE_LEN + TAG_SIZE as u64 {
        return Err(
            Error::ProfileDecryption {
                message: "field decryption failed: aead::Error".to_string(),
            },
        );
    }
    let (nonce, ciphertext) = payload.split_at(NONCE_SIZE);
    assert(nonce@ =~= payload@.take(NONCE_SIZE as int));
    assert(ciphertext@ =~= payload@.skip(NONCE_SIZE as int));
    Ok((nonce, ciphertext))
}

/// The text of a field, given how its ciphertext was decrypted.
pub fn text_from_opened(opened: Result<Vec<u8>, AeadError>) -> (text: Result<String, Error>)
    ensures
        text_outcome(
            text,
            opened_text(
                match opened {
                    Ok(bytes) => Ok(bytes@),
                    Err(err) => Err(err),
                },
            ),
        ),
{
    match opened {
        Ok(message) => match String::from_utf8(message) {
            Ok(text) => Ok(text),
            Err(err) => Err(
                Error::ProfileDecryption {
                    message: crate::error::quote("decrypted field is not valid UTF-8: ", err),
                },
            ),
        },
        Err(err) => Err(
            Error::ProfileDecryption {
                message: crate::error::quote("field decryption failed: ", err),
            },
        ),
    }
}

/// Decrypts the base64 text of a payload.
fn open_encoded(encoded: &str, key: &[u8; KEY_SIZE]) -> (plaintext: Result<String, Error>)
    ensures
        text_outcome(plaintext, encoded_payload_text(encoded@, key@)),
        plaintext matches Ok(text) ==> payload_encoded(encoded@, text@, key@),
{
    match payload_from_decoded(crate::outside::base64_decode(encoded)) {
        Err(err) => Err(err),
        Ok(payload) => match split_payload(payload.as_slice()) {
            Err(err) => Err(err),
            Ok((nonce, ciphertext)) => {
                let opened = crate::outside::aead_open(key, nonce, ciphertext);
                proof {
                    let message = opened->Ok_0@;
                    if opened is Ok && vstd::utf8::valid_utf8(message) {
                        vstd::utf8::decode_utf8_encode_utf8(message);
                    }
                }
                text_from_opened(opened)
            },
        },
    }
}

/// Decrypts a field without a salt. A field that is not encrypted holds nothing.
pub fn decrypt_field(encrypted: &str, key: &[u8; KEY_SIZE]) -> (plaintext: Result<
    Option<String>,
    Error,
>)
    ensures
        decrypts_bare(plaintext, encrypted@, key@),
{
    match crate::text::strip_prefix(encrypted, FIELD_ENCRYPTED_PREFIX) {
        None => Ok(None),
        Some(encoded) => match open_encoded(encoded, key) {
            Ok(text) => {
                proof {
                    lemma_no_colon(encoded@);
                    law_bare_field_shape(encoded@);
                    lemma_prefix_and_rest(FIELD_ENCRYPTED_PREFIX@, encrypted@);
                }
                Ok(Some(text))
            },
            Err(err) => Err(err),
        },
    }
}

/// Decrypts a field with an embedded salt, and hands out both. A field of another form holds
/// nothing.
pub fn decrypt_field_with_salt(encrypted: &str, key: &[u8; KEY_SIZE]) -> (found: Result<
    Option<(Vec<u8>, String)>,
    Error,
>)
    ensures
        decrypts_salted(found, encrypted@, key@),
{
    match field_form(encrypted) {
        FieldForm::Plain => Ok(None),
        FieldForm::Bare(_) => Ok(None),
        FieldForm::Incomplete => Err(
            Error::ProfileDecryption {
                message: "invalid encrypted field format: expected 'v1:salt:ciphertext'".to_string(),
            },
        ),
        FieldForm::Salted(salt_text, payload_text) => {
            let salt = match salt_from_decoded(crate::outside::base64_decode(salt_text)) {
                Ok(salt) => salt,
                Err(err) => {
                    return Err(err);
                },
            };
            match open_encoded(payload_text, key) {
                Ok(text) => {
                    proof {
                        lemma_salted_len(encrypted@);
                    }
                    Ok(Some((salt, text)))
                },
                Err(err) => Err(err),
            }
        },
    }
}

/// Extracts the salt that is embedded in a field, if there is one.
pub fn extract_salt(encrypted: &str) -> (salt: Result<Option<Vec<u8>>, Error>)
    ensures
        optional_bytes_outcome(salt, field_salt(encrypted@)),
        salt matches Ok(Some(bytes)) ==> (field_shape(encrypted@) matches FieldShape::Salted(
            salt_text,
            _,
        ) && salt_encoded(salt_text, bytes@)),
{
    match field_form(encrypted) {
        FieldForm::Plain => Ok(None),
        FieldForm::Bare(_) => Ok(None),
        FieldForm::Incomplete => Err(
            Error::ProfileDecryption {
                message:
                    "invalid salt-embedded format: expected 'ENC:v1:salt:ciphertext'".to_string(),
            },
        ),
        FieldForm::Salted(salt_text, _) => match salt_from_decoded(
            crate::outside::base64_decode(salt_text),
        ) {
            Ok(salt) => Ok(Some(salt)),
            Err(err) => Err(err),
        },
    }
}

/// Decrypts a field of either form. A field that is not encrypted holds nothing.
pub fn decrypt_field_auto(encrypted: &str, key: &[u8; KEY_SIZE]) -> (plaintext: Result<
    Option<String>,
    Error,
>)
    ensures
        decrypts_any(plaintext, encrypted@, key@),
{
    match decrypt_field_with_salt(encrypted, key) {
        Err(err) => Err(err),
        Ok(Some((_, text))) => Ok(Some(text)),
        Ok(None) => decrypt_field(encrypted, key),
    }
}

// ---------------------------------------------------------------------------------------------
// Encryption
// ---------------------------------------------------------------------------------------------

/// Base64 text has no colon.
proof fn lemma_no_colon(encoded: Seq<char>)
    requires
        crate::outside::base64_symbols(encoded),
    ensures
        forall|i: int| 0 <= i < encoded.len() ==> encoded[i] != ':',
{
    assert forall|i: int| 0 <= i < encoded.len() implies encoded[i] != ':' by {
        assert(crate::outside::base64_symbol(encoded[i]));
    }
}

/// A text that starts with a prefix is the prefix and the rest.
proof fn lemma_prefix_and_rest(prefix: Seq<char>, text: Seq<char>)
    requires
        prefix.is_prefix_of(text),
    ensures
        text == prefix + text.skip(prefix.len() as int),
{
    assert(text =~= prefix + text.skip(prefix.len() as int));
}

/// A field with an embedded salt is as long as its parts and the colon between them.
proof fn lemma_salted_len(text: Seq<char>)
    ensures
        field_shape(text) matches FieldShape::Salted(salt, encoded) ==> text.len()
            == FIELD_SALTED_PREFIX@.len() + salt.len() + 1 + encoded.len(),
{
    if let FieldShape::Salted(_, _) = field_shape(text) {
        let body = text.skip(FIELD_SALTED_PREFIX@.len() as int);
        let i = choose|i: int| crate::text::first_at(body, ':', i);
        assert(crate::text::first_at(body, ':', i));
    }
}

/// The payload of a sealed plaintext gives it back.
proof fn lemma_payload_reads_back(
    plaintext: Seq<char>,
    key: Seq<u8>,
    nonce: Seq<u8>,
    sealed: Seq<u8>,
)
    requires
        nonce.len() == NONCE_SIZE,
        sealed.len() <= MAX_MESSAGE_LEN + TAG_SIZE,
        crate::outside::gives(
            crate::outside::aead_opened(key, nonce, sealed),
            vstd::utf8::encode_utf8(plaintext),
        ),
    ensures
        payload_text(nonce + sealed, key) matches Ok(found) && found == plaintext,
{
    assert((nonce + sealed).take(NONCE_SIZE as int) =~= nonce);
    assert((nonce + sealed).skip(NONCE_SIZE as int) =~= sealed);
    vstd::utf8::encode_utf8_valid_utf8(plaintext);
    vstd::utf8::encode_utf8_decode_utf8(plaintext);
}

/// The base64 text of `len` bytes can be held in memory.
fn encoding_fits(len: usize) -> (fits: bool)
    ensures
        fits == crate::outside::base64_fits(len as int),
{
    (len as u128 + 2) / 3 * 4 <= isize::MAX as u128
}

/// A nonce followed by a ciphertext.
pub fn join_payload(nonce: &[u8; NONCE_SIZE], ciphertext: &[u8]) -> (payload: Vec<u8>)
    ensures
        payload@ == nonce@ + ciphertext@,
{
    let mut payload: Vec<u8> = Vec::new();
    payload.extend_from_slice(nonce);
    payload.extend_from_slice(ciphertext);
    assert(payload@ =~= nonce@ + ciphertext@);
    payload
}

/// Encrypts a plaintext into a payload.
fn seal_payload(plaintext: &str, key: &[u8; KEY_SIZE], nonce: &[u8; NONCE_SIZE]) -> (payload: Result<
    Vec<u8>,
    Error,
>)
    ensures
        bytes_outcome(payload, sealed_payload(plaintext@, key@, nonce@)),
        payload is Ok <==> field_sealable(plaintext@),
        payload matches Ok(bytes) ==> {
            &&& crate::outside::base64_fits(bytes@.len() as int)
            &&& bytes@.len() == payload_len(plaintext@)
            &&& payload_text(bytes@, key@) matches Ok(found) && found == plaintext@
        },
{
    let message = plaintext.as_bytes();
    if message.len() as u64 > MAX_MESSAGE_LEN || message.len() > usize::MAX - NONCE_SIZE - TAG_SIZE
        || !encoding_fits(NONCE_SIZE + message.len() + TAG_SIZE) {
        return Err(
            Error::ProfileEncryption {
                message: "field encryption failed: aead::Error".to_string(),
            },
        );
    }
    match crate::outside::aead_seal(key, nonce, message) {
        Ok(ciphertext) => {
            proof {
                lemma_payload_reads_back(plaintext@, key@, nonce@, ciphertext@);
            }
            Ok(join_payload(nonce, ciphertext.as_slice()))
        },
        Err(err) => Err(
            Error::ProfileEncryption {
                message: crate::error::quote("field encryption failed: ", err),
            },
        ),
    }
}

/// Encrypts a field under a given nonce, without a salt.
pub fn seal_field(plaintext: &str, key: &[u8; KEY_SIZE], nonce: &[u8; NONCE_SIZE]) -> (field: Result<
    String,
    Error,
>)
    ensures
        text_outcome(field, sealed_field(plaintext@, key@, nonce@)),
        field is Ok <==> field_sealable(plaintext@),
        field is Ok <==> vstd::utf8::encode_utf8(plaintext@).len() <= 274_877_906_816 && (
        vstd::utf8::encode_utf8(plaintext@).len() + 30) / 3 * 4 <= isize::MAX,
        vstd::utf8::encode_utf8(plaintext@).len() <= 1_600_000_000 ==> field is Ok,
        field matches Ok(text) ==> reads_back(text@, plaintext@, key@) && written_bare(
            text@,
            plaintext@,
            key@,
        ),
{
    match seal_payload(plaintext, key, nonce) {
        Ok(payload) => {
            let encoded = crate::outside::base64_encode(payload.as_slice());
            proof {
                lemma_no_colon(encoded@);
                law_bare_field_shape(encoded@);
                let text = FIELD_ENCRYPTED_PREFIX@ + encoded@;
                assert(text.take(FIELD_ENCRYPTED_PREFIX@.len() as int) =~= FIELD_ENCRYPTED_PREFIX@);
                assert(text.skip(FIELD_ENCRYPTED_PREFIX@.len() as int) =~= encoded@);
            }
            Ok(bare_field(encoded.as_str()))
        },
        Err(err) => Err(err),
    }
}

/// Encrypts a field under a given nonce, with a salt embedded.
pub fn seal_field_with_salt(
    plaintext: &str,
    key: &[u8; KEY_SIZE],
    nonce: &[u8; NONCE_SIZE],
    salt: &[u8],
) -> (field: Result<String, Error>)
    ensures
        text_outcome(field, sealed_salted_field(plaintext@, key@, nonce@, salt@)),
        field is Ok <==> field_sealable(plaintext@) && crate::outside::base64_fits(
            salt@.len() as int,
        ),
        field is Ok <==> vstd::utf8::encode_utf8(plaintext@).len() <= 274_877_906_816 && (
        vstd::utf8::encode_utf8(plaintext@).len() + 30) / 3 * 4 <= isize::MAX && (salt@.len() + 2)
            / 3 * 4 <= isize::MAX,
        vstd::utf8::encode_utf8(plaintext@).len() <= 1_600_000_000 && salt@.len() <= 1_600_000_000
            ==> field is Ok,
        field matches Ok(text) ==> reads_back_salted(text@, plaintext@, key@, salt@)
            && written_salted(text@, plaintext@, key@, salt@),
{
    if !encoding_fits(salt.len()) {
        return Err(
            Error::ProfileEncryption {
                message: "field encryption failed: aead::Error".to_string(),
            },
        );
    }
    match seal_payload(plaintext, key, nonce) {
        Ok(payload) => {
            let salt_encoded = crate::outside::base64_encode(salt);
            let encoded = crate::outside::base64_encode(payload.as_slice());
            proof {
                lemma_no_colon(salt_encoded@);
                law_salted_field_shape(salt_encoded@, encoded@);
                lemma_salted_len(FIELD_SALTED_PREFIX@ + salt_encoded@ + ":"@ + encoded@);
            }
            Ok(salted_field(salt_encoded.as_str(), encoded.as_str()))
        },
        Err(err) => Err(err),
    }
}

/// `field` is what encrypting `plaintext` under `key`, without a salt, gives for some nonce.
pub open spec fn encrypts(field: Result<String, Error>, plaintext: Seq<char>, key: Seq<u8>) -> bool {
    exists|nonce: Seq<u8>|
        nonce.len() == NONCE_SIZE && text_outcome(
            field,
            #[trigger] sealed_field(plaintext, key, nonce),
        )
}

/// `field` is what encrypting `plaintext` under `key`, with `salt` embedded, gives for some nonce.
pub open spec fn encrypts_salted(
    field: Result<String, Error>,
    plaintext: Seq<char>,
    key: Seq<u8>,
    salt: Seq<u8>,
) -> bool {
    exists|nonce: Seq<u8>|
        nonce.len() == NONCE_SIZE && text_outcome(
            field,
            #[trigger] sealed_salted_field(plaintext, key, nonce, salt),
        )
}

/// Encrypts a field under a random nonce, without a salt.
pub fn encrypt_field(plaintext: &str, key: &[u8; KEY_SIZE]) -> (field: Result<String, Error>)
    ensures
        encrypts(field, plaintext@, key@),
        field is Ok <==> field_sealable(plaintext@),
        field is Ok <==> vstd::utf8::encode_utf8(plaintext@).len() <= 274_877_906_816 && (
        vstd::utf8::encode_utf8(plaintext@).len() + 30) / 3 * 4 <= isize::MAX,
        vstd::utf8::encode_utf8(plaintext@).len() <= 1_600_000_000 ==> field is Ok,
        field matches Ok(text) ==> reads_back(text@, plaintext@, key@) && written_bare(
            text@,
            plaintext@,
            key@,
        ),
{
    let nonce = crate::outside::random_bytes::<NONCE_SIZE>();
    let field = seal_field(plaintext, key, &nonce);
    assert(text_outcome(field, sealed_field(plaintext@, key@, nonce@)));
    field
}

/// Encrypts a field under a random nonce and embeds the salt, as the first encrypted field of a
/// store has it.
pub fn encrypt_field_with_salt(plaintext: &str, key: &[u8; KEY_SIZE], salt: &[u8]) -> (field: Result<
    String,
    Error,
>)
    ensures
        encrypts_salted(field, plaintext@, key@, salt@),
        field is Ok <==> field_sealable(plaintext@) && crate::outside::base64_fits(
            salt@.len() as int,
        ),
        field is Ok <==> vstd::utf8::encode_utf8(plaintext@).len() <= 274_877_906_816 && (
        vstd::utf8::encode_utf8(plaintext@).len() + 30) / 3 * 4 <= isize::MAX && (salt@.len() + 2)
            / 3 * 4 <= isize::MAX,
        vstd::utf8::encode_utf8(plaintext@).len() <= 1_600_000_000 && salt@.len() <= 1_600_000_000
            ==> field is Ok,
        field matches Ok(text) ==> reads_back_salted(text@, plaintext@, key@, salt@)
            && written_salted(text@, plaintext@, key@, salt@),
{
    let nonce = crate::outside::random_bytes::<NONCE_SIZE>();
    let field = seal_field_with_salt(plaintext, key, &nonce, salt);
    assert(text_outcome(field, sealed_salted_field(plaintext@, key@, nonce@, salt@)));
    field
}

} // verus!
