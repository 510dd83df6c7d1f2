//! What encrypting and decrypting single fields does.
use crate::error::Error;
use vstd::prelude::*;

verus! {

// ---------------------------------------------------------------------------------------------
// Fields
// ---------------------------------------------------------------------------------------------

/// `encoded` is the base64 text of a nonce of 12 bytes and a ciphertext that opens, under `key` and
/// the nonce, to the UTF-8 bytes of `plaintext`.
pub open spec fn holds(encoded: Seq<char>, key: Seq<u8>, plaintext: Seq<char>) -> bool {
    &&& crate::outside::base64_decoded(encoded) matches Ok(payload)
    &&& 12 <= payload.len() <= 274_877_906_844
    &&& crate::outside::aead_opened(
        key,
        payload.subrange(0, 12),
        payload.subrange(12, payload.len() as int),
    ) matches Ok(message)
    &&& message == vstd::utf8::encode_utf8(plaintext)
}

/// `text` has a salt's text and a payload's text, which the first colon behind the prefix parts.
pub open spec fn salted_parts(text: Seq<char>, salt: Seq<char>, encoded: Seq<char>) -> bool {
    &&& text == "ENC:v1:"@ + salt + ":"@ + encoded
    &&& forall|i: int| 0 <= i < salt.len() ==> salt[i] != ':'
}

/// `err` says why the base64 text of a payload holds no plaintext under `key`.
pub open spec fn refusal(err: Error, encoded: Seq<char>, key: Seq<u8>) -> bool {
    match crate::outside::base64_decoded(encoded) {
        Err(source) => crate::laws::errors::decryption_error_of(err, "invalid base64 in encrypted field: "@, source),
        Ok(payload) => if payload.len() < 12 {
            crate::laws::errors::decryption_error(
                err,
                "encrypted field too short: expected at least 12 bytes, got "@
                    + crate::text::decimal_text(payload.len()),
            )
        } else if payload.len() > 274_877_906_844 {
            crate::laws::errors::decryption_error(err, "field decryption failed: aead::Error"@)
        } else {
            match crate::outside::aead_opened(
                key,
                payload.subrange(0, 12),
                payload.subrange(12, payload.len() as int),
            ) {
                Err(source) => crate::laws::errors::decryption_error_of(err, "field decryption failed: "@, source),
                Ok(message) => !vstd::utf8::valid_utf8(message) && crate::laws::errors::decryption_error_of(
                    err,
                    "decrypted field is not valid UTF-8: "@,
                    crate::outside::utf8_failure(message),
                ),
            }
        },
    }
}

/// Each field has one form: it is plain if and only if it does not start with `ENC:`; behind `ENC:v1:`
/// the first colon parts a salt from a payload; behind any other `ENC:` all is payload.
pub proof fn law_field_form(text: &str, form: crate::crypto::FieldForm)
    requires
        call_ensures(crate::crypto::field_form, (text,), form),
    ensures
        match form {
            crate::crypto::FieldForm::Plain => !"ENC:"@.is_prefix_of(text@),
            crate::crypto::FieldForm::Bare(encoded) => text@ == "ENC:"@ + encoded@
                && !"ENC:v1:"@.is_prefix_of(text@),
            crate::crypto::FieldForm::Salted(salt, encoded) => salted_parts(
                text@,
                salt@,
                encoded@,
            ),
            crate::crypto::FieldForm::Incomplete => "ENC:v1:"@.is_prefix_of(text@) && forall|i: int|
                7 <= i < text@.len() ==> text@[i] != ':',
        },
{
    lemma_shape(text@);
}

/// The form of a field, over its text.
pub proof fn lemma_shape(text: Seq<char>)
    ensures
        "ENC:v1:"@.is_prefix_of(text) ==> "ENC:"@.is_prefix_of(text),
        match crate::crypto::field_shape(text) {
            crate::crypto::FieldShape::Plain => !"ENC:"@.is_prefix_of(text),
            crate::crypto::FieldShape::Bare(encoded) => {
                &&& text == "ENC:"@ + encoded
                &&& encoded == text.skip(4)
                &&& "ENC:"@.is_prefix_of(text)
                &&& !"ENC:v1:"@.is_prefix_of(text)
            },
            crate::crypto::FieldShape::Salted(salt, encoded) => salted_parts(text, salt, encoded)
                && "ENC:v1:"@.is_prefix_of(text),
            crate::crypto::FieldShape::Incomplete => "ENC:v1:"@.is_prefix_of(text) && forall|i: int|
                7 <= i < text.len() ==> text[i] != ':',
        },
{
    reveal_strlit("ENC:");
    reveal_strlit("ENC:v1:");
    reveal_strlit(":");
    if "ENC:v1:"@.is_prefix_of(text) {
        assert(text.subrange(0, 7) == "ENC:v1:"@);
        assert(text.subrange(0, 4) =~= text.subrange(0, 7).subrange(0, 4));
        assert("ENC:v1:"@.subrange(0, 4) =~= "ENC:"@);
        assert("ENC:"@.is_prefix_of(text));
    }
    let body = text.skip(7);
    match crate::crypto::field_shape(text) {
        crate::crypto::FieldShape::Plain => {},
        crate::crypto::FieldShape::Bare(encoded) => {
            assert(text.subrange(0, 4) == "ENC:"@);
            assert(text =~= "ENC:"@ + encoded);
        },
        crate::crypto::FieldShape::Salted(salt, encoded) => {
            let i = choose|i: int| crate::text::first_at(body, ':', i);
            assert(crate::text::first_at(body, ':', i));
            assert(text.subrange(0, 7) == "ENC:v1:"@);
            assert(body =~= salt + ":"@ + encoded);
            assert(text =~= text.subrange(0, 7) + body);
            assert(text =~= "ENC:v1:"@ + salt + ":"@ + encoded);
            assert forall|j: int| 0 <= j < salt.len() implies salt[j] != ':' by {
                assert(body[j] == salt[j]);
            }
        },
        crate::crypto::FieldShape::Incomplete => {
            assert forall|i: int| 7 <= i < text.len() implies text[i] != ':' by {
                if text[i] == ':' {
                    lemma_first_exists(body, i - 7);
                }
            }
        },
    }
}

/// Where a colon stands, a first one stands.
proof fn lemma_first_exists(text: Seq<char>, i: int)
    requires
        0 <= i < text.len(),
        text[i] == ':',
    ensures
        exists|k: int| crate::text::first_at(text, ':', k),
    decreases i,
{
    if forall|j: int| 0 <= j < i ==> text[j] != ':' {
        assert(crate::text::first_at(text, ':', i));
    } else {
        let j = choose|j: int| 0 <= j < i && text[j] == ':';
        lemma_first_exists(text, j);
    }
}

/// A text with a salt's and a payload's text has the form that says so.
pub proof fn lemma_parts_shape(text: Seq<char>, salt: Seq<char>, encoded: Seq<char>)
    requires
        salted_parts(text, salt, encoded),
    ensures
        crate::crypto::field_shape(text) == crate::crypto::FieldShape::Salted(salt, encoded),
        "ENC:v1:"@.is_prefix_of(text),
        "ENC:"@.is_prefix_of(text),
{
    crate::crypto::law_salted_field_shape(salt, encoded);
    lemma_shape(text);
}

/// What a payload's text holds, and why it holds nothing.
pub proof fn lemma_payload(encoded: Seq<char>, key: Seq<u8>, err: Error)
    ensures
        match crate::crypto::encoded_payload_text(encoded, key) {
            Ok(plaintext) => holds(encoded, key, plaintext),
            Err(fault) => {
                &&& err.reports(fault) ==> refusal(err, encoded, key)
                &&& forall|plaintext: Seq<char>| !#[trigger] holds(encoded, key, plaintext)
            },
        },
        forall|plaintext: Seq<char>| #[trigger]
            holds(encoded, key, plaintext) ==> crate::crypto::encoded_payload_text(encoded, key) == Ok::<
                Seq<char>,
                crate::error::Fault,
            >(plaintext),
{
    assert forall|plaintext: Seq<char>| #[trigger]
        holds(encoded, key, plaintext) implies crate::crypto::encoded_payload_text(encoded, key) == Ok::<
        Seq<char>,
        crate::error::Fault,
    >(plaintext) by {
        vstd::utf8::encode_utf8_valid_utf8(plaintext);
        vstd::utf8::encode_utf8_decode_utf8(plaintext);
    }
    if let Ok(payload) = crate::outside::base64_decoded(encoded) {
        let opened = crate::outside::aead_opened(
            key,
            payload.subrange(0, 12),
            payload.subrange(12, payload.len() as int),
        );
        assert(payload.take(12) == payload.subrange(0, 12));
        assert(payload.skip(12) == payload.subrange(12, payload.len() as int));
        if let Ok(message) = opened {
            if vstd::utf8::valid_utf8(message) {
                vstd::utf8::decode_utf8_encode_utf8(message);
            }
        }
    }
    if let Err(fault) = crate::crypto::encoded_payload_text(encoded, key) {
        crate::laws::errors::law_reported_messages(err, fault);
    }
}

// ---------------------------------------------------------------------------------------------
// Decryption
// ---------------------------------------------------------------------------------------------

/// `decrypt_field` gives nothing if and only if the text does not start with `ENC:`. It gives a
/// plaintext if and only if that is what all behind `ENC:` holds under the key; an error says why
/// that holds none.
pub proof fn law_decrypt_field(text: &str, key: &[u8; 32], result: Result<Option<String>, Error>)
    requires
        call_ensures(crate::crypto::decrypt_field, (text, key), result),
    ensures
        !"ENC:"@.is_prefix_of(text@) <==> (result matches Ok(None)),
        result matches Ok(Some(plaintext)) ==> holds(text@.skip(4), key@, plaintext@),
        forall|plaintext: Seq<char>|
            "ENC:"@.is_prefix_of(text@) && #[trigger] holds(text@.skip(4), key@, plaintext) ==> (
            result matches Ok(Some(found)) && found@ == plaintext),
        result matches Err(err) ==> refusal(err, text@.skip(4), key@),
{
    reveal_strlit("ENC:");
    match result {
        Err(err) => lemma_payload(text@.skip(4), key@, err),
        _ => lemma_payload(text@.skip(4), key@, arbitrary::<Error>()),
    }
}

/// What is said of a field with an embedded salt, of which `salt` is the salt's text and `encoded` the
/// payload's: it is read if and only if the salt's text is base64 and the payload's text holds a
/// plaintext; the salt's text is looked at first.
pub open spec fn reads_parts(
    result: Result<Option<(Vec<u8>, String)>, Error>,
    salt: Seq<char>,
    encoded: Seq<char>,
    key: Seq<u8>,
) -> bool {
    match (crate::outside::base64_decoded(salt), result) {
        (Err(source), Err(err)) => crate::laws::errors::decryption_error_of(
            err,
            "invalid base64 in salt: "@,
            source,
        ),
        (Ok(bytes), Ok(Some((found, plaintext)))) => found@ == bytes && holds(
            encoded,
            key,
            plaintext@,
        ),
        (Ok(_), Err(err)) => refusal(err, encoded, key) && forall|plaintext: Seq<char>|
            !#[trigger] holds(encoded, key, plaintext),
        _ => false,
    }
}

/// `decrypt_field_with_salt` gives nothing if and only if the text does not start with `ENC:v1:`.
/// Behind that, a text without a colon is refused, and one with a colon is read in its two parts.
pub proof fn law_decrypt_field_with_salt(
    text: &str,
    key: &[u8; 32],
    result: Result<Option<(Vec<u8>, String)>, Error>,
)
    requires
        call_ensures(crate::crypto::decrypt_field_with_salt, (text, key), result),
    ensures
        !"ENC:v1:"@.is_prefix_of(text@) <==> (result matches Ok(None)),
        forall|salt: Seq<char>, encoded: Seq<char>| #[trigger]
            salted_parts(text@, salt, encoded) ==> reads_parts(result, salt, encoded, key@),
        result matches Ok(Some(_)) ==> exists|salt: Seq<char>, encoded: Seq<char>| #[trigger]
            salted_parts(text@, salt, encoded),
        "ENC:v1:"@.is_prefix_of(text@) && (forall|i: int| 7 <= i < text@.len() ==> text@[i] != ':')
            ==> (result matches Err(err) && crate::laws::errors::decryption_error(
            err,
            "invalid encrypted field format: expected 'v1:salt:ciphertext'"@,
        )),
{
    lemma_shape(text@);
    reveal_strlit("ENC:v1:");
    reveal_strlit(":");
    assert forall|salt: Seq<char>, encoded: Seq<char>| #[trigger]
        salted_parts(text@, salt, encoded) implies reads_parts(result, salt, encoded, key@) by {
        lemma_parts_shape(text@, salt, encoded);
        match result {
            Err(err) => {
                lemma_payload(encoded, key@, err);
                if let Err(source) = crate::outside::base64_decoded(salt) {
                    crate::laws::errors::law_reported_messages(
                        err,
                        crate::error::Fault::SaltEncoding(source),
                    );
                }
            },
            _ => lemma_payload(encoded, key@, arbitrary::<Error>()),
        }
    }
    if "ENC:v1:"@.is_prefix_of(text@) && (forall|i: int| 7 <= i < text@.len() ==> text@[i] != ':') {
        if let crate::crypto::FieldShape::Salted(salt, encoded) = crate::crypto::field_shape(text@) {
            assert(text@[7 + salt.len() as int] == ':');
        }
        if let Err(err) = result {
            crate::laws::errors::law_reported_messages(err, crate::error::Fault::FieldParts);
        }
    }
}

/// `extract_salt` gives nothing if and only if the text does not start with `ENC:v1:`. Behind that, a
/// text without a colon is refused; one with a colon gives what stands before it, if that is base64.
/// What stands behind the colon does not matter.
pub proof fn law_extract_salt(text: &str, result: Result<Option<Vec<u8>>, Error>)
    requires
        call_ensures(crate::crypto::extract_salt, (text,), result),
    ensures
        !"ENC:v1:"@.is_prefix_of(text@) <==> (result matches Ok(None)),
        forall|salt: Seq<char>, encoded: Seq<char>| #[trigger]
            salted_parts(text@, salt, encoded) ==> match crate::outside::base64_decoded(salt) {
                Ok(bytes) => result matches Ok(Some(found)) && found@ == bytes,
                Err(source) => result matches Err(err) && crate::laws::errors::decryption_error_of(
                    err,
                    "invalid base64 in salt: "@,
                    source,
                ),
            },
        result matches Ok(Some(_)) ==> exists|salt: Seq<char>, encoded: Seq<char>| #[trigger]
            salted_parts(text@, salt, encoded),
        "ENC:v1:"@.is_prefix_of(text@) && (forall|i: int| 7 <= i < text@.len() ==> text@[i] != ':')
            ==> (result matches Err(err) && crate::laws::errors::decryption_error(
            err,
            "invalid salt-embedded format: expected 'ENC:v1:salt:ciphertext'"@,
        )),
{
    lemma_shape(text@);
    reveal_strlit("ENC:v1:");
    reveal_strlit(":");
    assert forall|salt: Seq<char>, encoded: Seq<char>| #[trigger]
        salted_parts(text@, salt, encoded) implies match crate::outside::base64_decoded(salt) {
        Ok(bytes) => result matches Ok(Some(found)) && found@ == bytes,
        Err(source) => result matches Err(err) && crate::laws::errors::decryption_error_of(
            err,
            "invalid base64 in salt: "@,
            source,
        ),
    } by {
        lemma_parts_shape(text@, salt, encoded);
        if let (Err(err), Err(source)) = (result, crate::outside::base64_decoded(salt)) {
            crate::laws::errors::law_reported_messages(
                err,
                crate::error::Fault::SaltEncoding(source),
            );
        }
    }
    if "ENC:v1:"@.is_prefix_of(text@) && (forall|i: int| 7 <= i < text@.len() ==> text@[i] != ':') {
        if let crate::crypto::FieldShape::Salted(salt, encoded) = crate::crypto::field_shape(text@) {
            assert(text@[7 + salt.len() as int] == ':');
        }
        if let Err(err) = result {
            crate::laws::errors::law_reported_messages(err, crate::error::Fault::SaltParts);
        }
    }
}

/// `decrypt_field_auto` gives nothing if and only if the text does not start with `ENC:`. A text that
/// `decrypt_field_with_salt` reads gives the same plaintext, and one that it refuses is refused; any
/// other gives what `decrypt_field` gives.
pub proof fn law_decrypt_field_auto(
    text: &str,
    key: &[u8; 32],
    auto: Result<Option<String>, Error>,
    salted: Result<Option<(Vec<u8>, String)>, Error>,
    bare: Result<Option<String>, Error>,
)
    requires
        call_ensures(crate::crypto::decrypt_field_auto, (text, key), auto),
        call_ensures(crate::crypto::decrypt_field_with_salt, (text, key), salted),
        call_ensures(crate::crypto::decrypt_field, (text, key), bare),
    ensures
        !"ENC:"@.is_prefix_of(text@) <==> (auto matches Ok(None)),
        salted matches Ok(Some((_, plaintext))) ==> (auto matches Ok(Some(found)) && found@
            == plaintext@),
        salted is Err ==> auto is Err,
        (salted matches Ok(None)) ==> match bare {
            Ok(Some(plaintext)) => auto matches Ok(Some(found)) && found@ == plaintext@,
            Ok(None) => auto matches Ok(None),
            Err(_) => auto is Err,
        },
{
    lemma_shape(text@);
    reveal_strlit("ENC:");
}

/// A credential's text is read under a key: it starts with `ENC:v1:` and has a base64 salt and a payload
/// that holds the plaintext, or it starts with another `ENC:` and all behind that holds it.
pub open spec fn opens_to(text: Seq<char>, key: Seq<u8>, plaintext: Seq<char>) -> bool {
    ||| "ENC:"@.is_prefix_of(text) && !"ENC:v1:"@.is_prefix_of(text) && holds(
        text.skip(4),
        key,
        plaintext,
    )
    ||| exists|salt: Seq<char>, encoded: Seq<char>| #[trigger]
        salted_parts(text, salt, encoded) && crate::outside::base64_decoded(salt) is Ok && holds(
            encoded,
            key,
            plaintext,
        )
}

/// `decrypt_field_auto` gives a plaintext if and only if the text is read to it, in the form it has. A
/// text that starts with `ENC:` and is read to nothing is refused.
pub proof fn law_decrypt_field_auto_reads(
    text: &str,
    key: &[u8; 32],
    auto: Result<Option<String>, Error>,
)
    requires
        call_ensures(crate::crypto::decrypt_field_auto, (text, key), auto),
    ensures
        auto matches Ok(Some(plaintext)) ==> opens_to(text@, key@, plaintext@),
        forall|plaintext: Seq<char>| #[trigger]
            opens_to(text@, key@, plaintext) ==> (auto matches Ok(Some(found)) && found@
                == plaintext),
        auto matches Err(err) ==> "ENC:"@.is_prefix_of(text@) && err is ProfileDecryption,
{
    lemma_any_field(text@, key@);
    reveal_strlit("ENC:");
}

/// What a field of either form holds.
pub proof fn lemma_any_field(text: Seq<char>, key: Seq<u8>)
    ensures
        (crate::crypto::any_field_text(text, key) matches Ok(None)) <==> !"ENC:"@.is_prefix_of(text),
        crate::crypto::any_field_text(text, key) matches Ok(Some(plaintext)) ==> opens_to(
            text,
            key,
            plaintext,
        ),
        forall|plaintext: Seq<char>| #[trigger]
            opens_to(text, key, plaintext) ==> (crate::crypto::any_field_text(text, key) matches Ok(
                Some(found),
            ) && found == plaintext),
{
    lemma_shape(text);
    let any = arbitrary::<Error>();
    lemma_payload(text.skip(4), key, any);
    if let crate::crypto::FieldShape::Salted(salt, encoded) = crate::crypto::field_shape(text) {
        lemma_payload(encoded, key, any);
        assert(salted_parts(text, salt, encoded));
    }
    assert forall|plaintext: Seq<char>| #[trigger] opens_to(text, key, plaintext) implies (
    crate::crypto::any_field_text(text, key) matches Ok(Some(found)) && found == plaintext) by {
        if !("ENC:"@.is_prefix_of(text) && !"ENC:v1:"@.is_prefix_of(text) && holds(
            text.skip(4),
            key,
            plaintext,
        )) {
            let (salt, encoded) = choose|salt: Seq<char>, encoded: Seq<char>| #[trigger]
                salted_parts(text, salt, encoded) && crate::outside::base64_decoded(salt) is Ok
                    && holds(encoded, key, plaintext);
            lemma_parts_shape(text, salt, encoded);
            lemma_payload(encoded, key, any);
        }
    }
}

// ---------------------------------------------------------------------------------------------
// Encryption
// ---------------------------------------------------------------------------------------------

/// Bytes of a text in UTF-8.
pub open spec fn byte_len(text: Seq<char>) -> int {
    vstd::utf8::encode_utf8(text).len() as int
}

/// `encoded` is the base64 text of `nonce` and of what the cipher makes of the UTF-8 bytes of
/// `plaintext` under `key` and `nonce`.
pub open spec fn sealed_as(
    encoded: Seq<char>,
    key: Seq<u8>,
    nonce: Seq<u8>,
    plaintext: Seq<char>,
) -> bool {
    &&& crate::outside::aead_sealed(
        key,
        nonce,
        vstd::utf8::encode_utf8(plaintext),
    ) matches Ok(sealed)
    &&& encoded == crate::outside::base64_text(nonce + sealed)
}

/// `encrypt_field` takes every plaintext that the cipher takes and whose field fits in memory, on every
/// machine each of up to 1.6 thousand million bytes. The field is `ENC:` and the base64 text of a nonce
/// of 12 bytes and what the cipher makes of all of the plaintext.
pub proof fn law_encrypt_field(plaintext: &str, key: &[u8; 32], field: Result<String, Error>)
    requires
        call_ensures(crate::crypto::encrypt_field, (plaintext, key), field),
    ensures
        field is Ok <==> byte_len(plaintext@) <= 274_877_906_816 && (byte_len(plaintext@) + 30) / 3
            * 4 <= isize::MAX,
        byte_len(plaintext@) <= 1_600_000_000 ==> field is Ok,
        field matches Ok(text) ==> {
            &&& text@ == "ENC:"@ + text@.skip(4)
            &&& exists|nonce: Seq<u8>|
                nonce.len() == 12 && #[trigger] sealed_as(text@.skip(4), key@, nonce, plaintext@)
            &&& text@.len() == 4 + (byte_len(plaintext@) + 30) / 3 * 4
        },
        field matches Err(err) ==> crate::laws::errors::encryption_error(
            err,
            "field encryption failed: aead::Error"@,
        ),
{
    reveal_strlit("ENC:");
    let nonce = choose|nonce: Seq<u8>|
        nonce.len() == 12 && crate::crypto::text_outcome(
            field,
            #[trigger] crate::crypto::sealed_field(plaintext@, key@, nonce),
        );
    match field {
        Ok(text) => {
            let encoded = text@.skip(4);
            assert(text@ =~= "ENC:"@ + encoded);
            let sealed = crate::outside::aead_sealed(
                key@,
                nonce,
                vstd::utf8::encode_utf8(plaintext@),
            )->Ok_0;
            assert(text@ == "ENC:"@ + crate::outside::base64_text(nonce + sealed));
            assert(encoded =~= crate::outside::base64_text(nonce + sealed));
            assert(sealed_as(encoded, key@, nonce, plaintext@));
        },
        Err(err) => {
            crate::laws::errors::law_reported_messages(
                err,
                crate::error::Fault::PlaintextOverlong,
            );
        },
    }
}

/// `encrypt_field_with_salt` takes every plaintext that `encrypt_field` takes, with every salt whose
/// base64 text fits in memory. The field is `ENC:v1:`, the base64 text of all of the salt, a colon, and
/// the payload's text.
pub proof fn law_encrypt_field_with_salt(
    plaintext: &str,
    key: &[u8; 32],
    salt: &[u8],
    field: Result<String, Error>,
)
    requires
        call_ensures(crate::crypto::encrypt_field_with_salt, (plaintext, key, salt), field),
    ensures
        field is Ok <==> byte_len(plaintext@) <= 274_877_906_816 && (byte_len(plaintext@) + 30) / 3
            * 4 <= isize::MAX && (salt@.len() + 2) / 3 * 4 <= isize::MAX,
        byte_len(plaintext@) <= 1_600_000_000 && salt@.len() <= 1_600_000_000 ==> field is Ok,
        field matches Ok(text) ==> exists|encoded: Seq<char>, nonce: Seq<u8>|
            {
                &&& nonce.len() == 12
                &&& #[trigger] sealed_as(encoded, key@, nonce, plaintext@)
                &&& salted_parts(text@, crate::outside::base64_text(salt@), encoded)
            },
        field matches Err(err) ==> crate::laws::errors::encryption_error(
            err,
            "field encryption failed: aead::Error"@,
        ),
{
    reveal_strlit("ENC:v1:");
    let nonce = choose|nonce: Seq<u8>|
        nonce.len() == 12 && crate::crypto::text_outcome(
            field,
            #[trigger] crate::crypto::sealed_salted_field(plaintext@, key@, nonce, salt@),
        );
    match field {
        Ok(text) => {
            let sealed = crate::outside::aead_sealed(
                key@,
                nonce,
                vstd::utf8::encode_utf8(plaintext@),
            )->Ok_0;
            let encoded = crate::outside::base64_text(nonce + sealed);
            assert(sealed_as(encoded, key@, nonce, plaintext@));
            lemma_shape(text@);
            if let crate::crypto::FieldShape::Salted(salt_text, _) = crate::crypto::field_shape(
                text@,
            ) {
                assert(salt_text == crate::outside::base64_text(salt@));
            }
            assert(salted_parts(text@, crate::outside::base64_text(salt@), encoded));
        },
        Err(err) => {
            crate::laws::errors::law_reported_messages(
                err,
                crate::error::Fault::PlaintextOverlong,
            );
        },
    }
}

/// Under a given nonce, the field is fixed by plaintext, key, nonce and salt.
pub proof fn law_seal_field(
    plaintext: &str,
    key: &[u8; 32],
    nonce: &[u8; 12],
    salt: &[u8],
    field: Result<String, Error>,
    salted: Result<String, Error>,
)
    requires
        call_ensures(crate::crypto::seal_field, (plaintext, key, nonce), field),
        call_ensures(crate::crypto::seal_field_with_salt, (plaintext, key, nonce, salt), salted),
    ensures
        field is Ok <==> byte_len(plaintext@) <= 274_877_906_816 && (byte_len(plaintext@) + 30) / 3
            * 4 <= isize::MAX,
        salted is Ok <==> field is Ok && (salt@.len() + 2) / 3 * 4 <= isize::MAX,
        field matches Ok(text) ==> text@ == "ENC:"@ + text@.skip(4) && sealed_as(
            text@.skip(4),
            key@,
            nonce@,
            plaintext@,
        ),
        salted matches Ok(text) ==> (field matches Ok(bare) && text@ == "ENC:v1:"@
            + crate::outside::base64_text(salt@) + ":"@ + bare@.skip(4)),
{
    reveal_strlit("ENC:");
    if let Ok(text) = field {
        let sealed = crate::outside::aead_sealed(
            key@,
            nonce@,
            vstd::utf8::encode_utf8(plaintext@),
        )->Ok_0;
        assert(text@ == "ENC:"@ + crate::outside::base64_text(nonce@ + sealed));
        assert(text@.skip(4) =~= crate::outside::base64_text(nonce@ + sealed));
        assert(text@ =~= "ENC:"@ + text@.skip(4));
    }
}

/// What `encrypt_field` gives, `decrypt_field` and `decrypt_field_auto` turn back under the same key, and
/// `extract_salt` finds no salt in it.
pub proof fn law_encrypted_field_reads_back(
    plaintext: &str,
    key: &[u8; 32],
    field: String,
    text: &str,
    bare: Result<Option<String>, Error>,
    auto: Result<Option<String>, Error>,
    salt: Result<Option<Vec<u8>>, Error>,
)
    requires
        call_ensures(crate::crypto::encrypt_field, (plaintext, key), Ok::<String, Error>(field)),
        text@ == field@,
        call_ensures(crate::crypto::decrypt_field, (text, key), bare),
        call_ensures(crate::crypto::decrypt_field_auto, (text, key), auto),
        call_ensures(crate::crypto::extract_salt, (text,), salt),
    ensures
        bare matches Ok(Some(found)) && found@ == plaintext@,
        auto matches Ok(Some(found)) && found@ == plaintext@,
        salt matches Ok(None),
{
}

/// What `encrypt_field_with_salt` gives, `decrypt_field_with_salt` and `decrypt_field_auto` turn back
/// under the same key, `extract_salt` finds the salt in it, and `decrypt_field` refuses it.
pub proof fn law_salted_field_reads_back(
    plaintext: &str,
    key: &[u8; 32],
    salt: &[u8],
    field: String,
    text: &str,
    salted: Result<Option<(Vec<u8>, String)>, Error>,
    auto: Result<Option<String>, Error>,
    found_salt: Result<Option<Vec<u8>>, Error>,
    bare: Result<Option<String>, Error>,
)
    requires
        call_ensures(
            crate::crypto::encrypt_field_with_salt,
            (plaintext, key, salt),
            Ok::<String, Error>(field),
        ),
        text@ == field@,
        call_ensures(crate::crypto::decrypt_field_with_salt, (text, key), salted),
        call_ensures(crate::crypto::decrypt_field_auto, (text, key), auto),
        call_ensures(crate::crypto::extract_salt, (text,), found_salt),
        call_ensures(crate::crypto::decrypt_field, (text, key), bare),
    ensures
        salted matches Ok(Some((found, again))) && found@ == salt@ && again@ == plaintext@,
        auto matches Ok(Some(again)) && again@ == plaintext@,
        found_salt matches Ok(Some(found)) && found@ == salt@,
        bare is Err,
{
}

} // verus!
