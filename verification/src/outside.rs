//! What the library takes from other crates, and from std where vstd says nothing of it.
//!
//! Nothing in this file is proved: each item states what the outside function that it names is
//! known to do, and the rest of the library is proved from these statements.
use argon2::Error as Argon2Error;
use argon2::{Algorithm, Argon2, Params, Version};
use base64::engine::general_purpose::STANDARD;
use base64::{DecodeError, Engine};
use chacha20poly1305::aead::Error as AeadError;
use chacha20poly1305::aead::{Aead, KeyInit};
use chacha20poly1305::{ChaCha20Poly1305, Key, Nonce};
use rand::Rng;
use secrecy::ExposeSecret;
use std::string::FromUtf8Error;
use uuid::Uuid;
use vstd::prelude::*;
use vstd::utf8::{decode_utf8, valid_utf8};
use zeroize::Zeroizing;

verus! {

/// Bytes that ChaCha20-Poly1305 adds to a message: the Poly1305 tag.
pub const TAG_SIZE: usize = 16;

/// The longest message, in bytes, that one ChaCha20-Poly1305 nonce can encrypt: the cipher numbers
/// its 64-byte blocks with 32 bits, takes block 0 for the tag's key and never uses the last number.
pub const MAX_MESSAGE_LEN: u64 = 274_877_906_816;

/// `base64::DecodeError`: why a text is not standard base64.
#[verifier::external_type_specification]
#[verifier::external_body]
pub struct ExDecodeError(DecodeError);

/// `argon2::Error`: why Argon2 refused its inputs.
#[verifier::external_type_specification]
#[verifier::external_body]
pub struct ExArgon2Error(Argon2Error);

/// `aead::Error`: a message was not encrypted, or not authentic. It says no more than that.
#[verifier::external_type_specification]
#[verifier::external_body]
pub struct ExAeadError(AeadError);

/// `std::string::FromUtf8Error`: why bytes are not UTF-8.
#[verifier::external_type_specification]
#[verifier::external_body]
pub struct ExFromUtf8Error(FromUtf8Error);

/// An outside function's result is the one that `named` stands for.
pub open spec fn yields<E>(result: Result<Vec<u8>, E>, named: Result<Seq<u8>, E>) -> bool {
    match (result, named) {
        (Ok(bytes), Ok(named)) => bytes@ == named,
        (Err(err), Err(named)) => err == named,
        _ => false,
    }
}

/// A named result is a success with these bytes.
pub open spec fn gives<E>(named: Result<Seq<u8>, E>, bytes: Seq<u8>) -> bool {
    named matches Ok(found) && found == bytes
}

/// Text that is wiped from memory when it is dropped and that debug output does not show: a
/// `secrecy::SecretString`. Verus takes no declaration of that type itself, whose parameter is
/// bound by `Zeroize`.
#[verifier::external_body]
#[derive(Debug)]
pub struct SecretString {
    inner: secrecy::SecretString,
}

/// The text that a `SecretString` holds.
pub uninterp spec fn secret_text(secret: SecretString) -> Seq<char>;

/// `secrecy::SecretString::new`: the secret holds the text that it is given.
#[verifier::external_body]
pub(crate) fn conceal(text: String) -> (secret: SecretString)
    ensures
        secret_text(secret) == text@,
{
    SecretString { inner: secrecy::SecretString::new(text.into()) }
}

/// `secrecy::ExposeSecret::expose_secret`: hands out the text that the secret holds.
#[verifier::external_body]
pub(crate) fn expose(secret: &SecretString) -> (text: &str)
    ensures
        text@ == secret_text(*secret),
{
    secret.inner.expose_secret()
}

/// A key of 32 bytes that is wiped from memory when it is dropped: a `zeroize::Zeroizing`. Verus
/// takes no declaration of that type itself, whose parameter is bound by `Zeroize`.
#[verifier::external_body]
#[derive(Debug)]
pub struct SecretKey {
    inner: Zeroizing<[u8; 32]>,
}

/// The bytes that a `SecretKey` holds.
pub uninterp spec fn key_bytes(key: SecretKey) -> Seq<u8>;

/// `zeroize::Zeroizing::new`: the key holds the bytes that it is given.
#[verifier::external_body]
pub(crate) fn guard_key(bytes: [u8; 32]) -> (key: SecretKey)
    ensures
        key_bytes(key) == bytes@,
{
    SecretKey { inner: Zeroizing::new(bytes) }
}

/// `Deref` of `zeroize::Zeroizing`: hands out the bytes that the key holds.
#[verifier::external_body]
pub(crate) fn open_key(key: &SecretKey) -> (bytes: &[u8; 32])
    ensures
        bytes@ == key_bytes(*key),
{
    &key.inner
}

/// The standard base64 text, with padding, of some bytes.
pub uninterp spec fn base64_text(bytes: Seq<u8>) -> Seq<char>;

/// What a text decodes to as standard base64, or why it does not.
pub uninterp spec fn base64_decoded(text: Seq<char>) -> Result<Seq<u8>, DecodeError>;

/// A character that standard base64 writes: of its alphabet, or the padding.
pub open spec fn base64_symbol(c: char) -> bool {
    ||| 'A' <= c <= 'Z'
    ||| 'a' <= c <= 'z'
    ||| '0' <= c <= '9'
    ||| c == '+'
    ||| c == '/'
    ||| c == '='
}

/// Text of characters that standard base64 writes.
pub open spec fn base64_symbols(text: Seq<char>) -> bool {
    forall|i: int| 0 <= i < text.len() ==> base64_symbol(#[trigger] text[i])
}

/// Characters of the base64 text of `len` bytes: four for each three bytes that are begun.
pub open spec fn base64_len(len: int) -> int {
    (len + 2) / 3 * 4
}

/// The base64 text of `len` bytes can be held in memory.
pub open spec fn base64_fits(len: int) -> bool {
    base64_len(len) <= isize::MAX
}

/// `base64::Engine::encode` of the engine `STANDARD`: the text is written in the base64 alphabet
/// and padded to whole groups of four characters, and the same engine decodes it to the bytes that
/// were given. The call panics where the text would not fit in memory.
#[verifier::external_body]
pub(crate) fn base64_encode(bytes: &[u8]) -> (text: String)
    requires
        base64_fits(bytes@.len() as int),
    ensures
        text@ == base64_text(bytes@),
        base64_symbols(text@),
        text@.len() == base64_len(bytes@.len() as int),
        gives(base64_decoded(text@), bytes@),
{
    STANDARD.encode(bytes)
}

/// `base64::Engine::decode` of the engine `STANDARD`: the outcome depends on the text alone. Only a
/// text that is written in the base64 alphabet is decoded, and only the one that the same engine
/// writes for the decoded bytes: it takes no other padding and no bits that belong to no byte.
#[verifier::external_body]
pub(crate) fn base64_decode(text: &str) -> (decoded: Result<Vec<u8>, DecodeError>)
    ensures
        yields(decoded, base64_decoded(text@)),
        decoded is Ok ==> base64_symbols(text@),
        decoded matches Ok(bytes) ==> {
            &&& text@ == base64_text(bytes@)
            &&& text@.len() == base64_len(bytes@.len() as int)
        },
{
    STANDARD.decode(text)
}

/// What ChaCha20-Poly1305 makes of a message under a key and a nonce: the ciphertext and its tag,
/// or a refusal.
pub uninterp spec fn aead_sealed(key: Seq<u8>, nonce: Seq<u8>, message: Seq<u8>) -> Result<
    Seq<u8>,
    AeadError,
>;

/// The message that ChaCha20-Poly1305 recovers under a key and a nonce, or a refusal.
pub uninterp spec fn aead_opened(key: Seq<u8>, nonce: Seq<u8>, sealed: Seq<u8>) -> Result<
    Seq<u8>,
    AeadError,
>;

/// `aead::Aead::encrypt` of `ChaCha20Poly1305`, with no associated data: it takes every message that
/// is not too long, and what it makes of a message opens to that message under the same key and
/// nonce. It panics on some longer messages and refuses the others.
#[verifier::external_body]
pub(crate) fn aead_seal(key: &[u8; 32], nonce: &[u8; 12], message: &[u8]) -> (sealed: Result<
    Vec<u8>,
    AeadError,
>)
    requires
        message@.len() <= MAX_MESSAGE_LEN,
        message@.len() + TAG_SIZE <= isize::MAX,
    ensures
        yields(sealed, aead_sealed(key@, nonce@, message@)),
        sealed is Ok,
        sealed matches Ok(bytes) ==> {
            &&& bytes@.len() == message@.len() + TAG_SIZE
            &&& gives(aead_opened(key@, nonce@, bytes@), message@)
        },
{
    ChaCha20Poly1305::new(Key::from_slice(key)).encrypt(Nonce::from_slice(nonce), message)
}

/// `aead::Aead::decrypt` of `ChaCha20Poly1305`, with no associated data: the outcome depends on the
/// key, the nonce and the sealed message alone. The message is what is left without the tag; what has
/// no room for a tag is refused. It panics on some longer messages and refuses the others.
#[verifier::external_body]
pub(crate) fn aead_open(key: &[u8; 32], nonce: &[u8], sealed: &[u8]) -> (message: Result<
    Vec<u8>,
    AeadError,
>)
    requires
        nonce@.len() == 12,
        sealed@.len() <= MAX_MESSAGE_LEN + TAG_SIZE,
    ensures
        yields(message, aead_opened(key@, nonce@, sealed@)),
        sealed@.len() < TAG_SIZE ==> message is Err,
        message matches Ok(bytes) ==> bytes@.len() + TAG_SIZE == sealed@.len(),
{
    ChaCha20Poly1305::new(Key::from_slice(key)).decrypt(Nonce::from_slice(nonce), sealed)
}

/// Why no key was derived: Argon2 refused its costs, or the password and salt.
#[derive(Debug)]
pub enum KdfFailure {
    Costs(Argon2Error),
    Inputs(Argon2Error),
}

/// The 32 bytes that Argon2id, version 0x13, derives from a password and a salt with a memory cost
/// in KiB, a number of passes and a number of lanes, or why it derives none.
pub uninterp spec fn argon2id_derived(
    password: Seq<u8>,
    salt: Seq<u8>,
    m_cost: u32,
    t_cost: u32,
    p_cost: u32,
) -> Result<Seq<u8>, KdfFailure>;

/// Costs that Argon2 does not take: fewer than eight KiB, or than eight KiB a lane, no pass, no lane
/// or too many.
pub open spec fn argon2_refuses_costs(m_cost: u32, t_cost: u32, p_cost: u32) -> bool {
    m_cost < 8 || m_cost < p_cost * 8 || t_cost < 1 || p_cost < 1 || p_cost > 0xFF_FFFF
}

/// Lengths of password and salt that Argon2 does not take: its counters have 32 bits, and a salt has
/// at least eight bytes.
pub open spec fn argon2_refuses_inputs(password_len: nat, salt_len: nat) -> bool {
    password_len > 0xFFFF_FFFF || salt_len < 8 || salt_len > 0xFFFF_FFFF
}

/// `argon2::Params::new` and `argon2::Argon2::hash_password_into`, for 32 bytes of output: the
/// costs are looked at first, then the password and salt, and nothing else is refused. Costs whose
/// memory cannot be counted or held are left out: the calls panic on them.
#[verifier::external_body]
pub(crate) fn argon2id_derive(
    password: &[u8],
    salt: &[u8],
    m_cost: u32,
    t_cost: u32,
    p_cost: u32,
) -> (key: Result<[u8; 32], KdfFailure>)
    requires
        p_cost * 8 <= u32::MAX,
        m_cost * 1024 <= isize::MAX,
    ensures
        match key {
            Ok(bytes) => gives(argon2id_derived(password@, salt@, m_cost, t_cost, p_cost), bytes@),
            Err(err) => argon2id_derived(password@, salt@, m_cost, t_cost, p_cost) matches Err(named)
                && named == err,
        },
        match key {
            Ok(_) => !argon2_refuses_costs(m_cost, t_cost, p_cost) && !argon2_refuses_inputs(
                password@.len(),
                salt@.len(),
            ),
            Err(KdfFailure::Costs(_)) => argon2_refuses_costs(m_cost, t_cost, p_cost),
            Err(KdfFailure::Inputs(_)) => !argon2_refuses_costs(m_cost, t_cost, p_cost)
                && argon2_refuses_inputs(password@.len(), salt@.len()),
        },
{
    let params = Params::new(m_cost, t_cost, p_cost, Some(32)).map_err(KdfFailure::Costs)?;
    let argon2 = Argon2::new(Algorithm::Argon2id, Version::V0x13, params);
    let mut key = Zeroizing::new([0u8; 32]);
    argon2.hash_password_into(password, salt, &mut *key).map_err(KdfFailure::Inputs)?;
    Ok(*key)
}

/// The BLAKE3 hash of some bytes.
pub uninterp spec fn blake3_digest(input: Seq<u8>) -> Seq<u8>;

/// `blake3::hash`: the hash depends on the bytes alone.
#[verifier::external_body]
pub(crate) fn blake3_hash(input: &[u8]) -> (digest: [u8; 32])
    ensures
        digest@ == blake3_digest(input@),
{
    *blake3::hash(input).as_bytes()
}

/// The BLAKE3 hash of some bytes under a key.
pub uninterp spec fn blake3_keyed_digest(key: Seq<u8>, input: Seq<u8>) -> Seq<u8>;

/// `blake3::Hasher::new_keyed`, fed once: the hash depends on the key and the bytes alone.
#[verifier::external_body]
pub(crate) fn blake3_keyed_hash(key: &[u8; 32], input: &[u8]) -> (digest: [u8; 32])
    ensures
        digest@ == blake3_keyed_digest(key@, input@),
{
    let mut hasher = blake3::Hasher::new_keyed(key);
    hasher.update(input);
    *hasher.finalize().as_bytes()
}

/// `rand::Rng::random` of the thread's generator: any bytes may come. Where the system has no
/// random numbers to seed the generator with, the call panics.
#[verifier::external_body]
pub(crate) fn random_bytes<const N: usize>() -> (bytes: [u8; N]) {
    rand::rng().random()
}

/// `uuid::Uuid::new_v4`, in its simple form: 32 lower-case hexadecimal digits, which differ from
/// call to call. Where the system has no random numbers, the call panics.
#[verifier::external_body]
pub(crate) fn random_id() -> (id: String)
    ensures
        id@.len() == 32,
        forall|i: int|
            0 <= i < id@.len() ==> '0' <= #[trigger] id@[i] <= '9' || 'a' <= id@[i] <= 'f',
{
    Uuid::new_v4().simple().to_string()
}

/// Why some bytes are not UTF-8.
pub uninterp spec fn utf8_failure(bytes: Seq<u8>) -> FromUtf8Error;

/// `String::from_utf8`: takes exactly the bytes that are UTF-8, for the text that they encode.
pub assume_specification[ String::from_utf8 ](vec: Vec<u8>) -> (text: Result<String, FromUtf8Error>)
    ensures
        match text {
            Ok(text) => valid_utf8(vec@) && text@ == decode_utf8(vec@),
            Err(err) => !valid_utf8(vec@) && err == utf8_failure(vec@),
        },
;

} // verus!
