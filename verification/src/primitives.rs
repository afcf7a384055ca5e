//! Trusted boundary to the cryptographic and encoding crates, and to the
//! parts of std that vstd leaves unspecified. Every item here is taken on trust,
//! without proof; the doc comment of each says what is claimed.

use aes_gcm::aead::Aead;
use aes_gcm::KeyInit;
use base64::Engine;
use rand::RngCore;
use vstd::prelude::*;
use vstd::utf8::*;

verus! {

/// `aes_gcm::Error` (the `aead` crate's opaque error), carried through as an opaque value.
#[verifier::external_type_specification]
#[verifier::external_body]
pub struct ExAeadError(aes_gcm::Error);

/// The text that the standard padded base64 engine produces for `bytes`.
pub uninterp spec fn base64_encoding(bytes: Seq<u8>) -> Seq<char>;

/// What the standard padded base64 engine decodes `text` to, or, where it rejects it,
/// the `Display` text of the `DecodeError` it returns.
pub uninterp spec fn base64_decoding(text: Seq<char>) -> Result<Seq<u8>, Seq<char>>;

/// AES-256-GCM ciphertext (with its 16-byte tag appended) of `plaintext` under `key` and `nonce`,
/// with no associated data.
pub uninterp spec fn aes256gcm_seal(key: Seq<u8>, nonce: Seq<u8>, plaintext: Seq<u8>) -> Seq<u8>;

/// AES-256-GCM decryption of `ciphertext` (tag appended) under `key` and `nonce`, with no
/// associated data; `None` where authentication fails.
pub uninterp spec fn aes256gcm_open(key: Seq<u8>, nonce: Seq<u8>, ciphertext: Seq<u8>) -> Option<Seq<u8>>;

/// The `Display` text of the `FromUtf8Error` that `String::from_utf8` returns for `bytes`.
pub uninterp spec fn utf8_error_text(bytes: Seq<u8>) -> Seq<char>;

/// Length of the padded base64 encoding of `n` bytes: four characters per started
/// group of three bytes.
pub open spec fn base64_encoded_len(n: nat) -> nat {
    (n + 2) / 3 * 4
}

/// Number of `=` characters that pad the base64 encoding of `n` bytes.
pub open spec fn base64_padding(n: nat) -> nat {
    if n % 3 == 0 {
        0
    } else {
        (3 - n % 3) as nat
    }
}

/// A character of the standard base64 alphabet, or the padding character.
pub open spec fn is_base64_char(c: char) -> bool {
    ('A' <= c && c <= 'Z') || ('a' <= c && c <= 'z') || ('0' <= c && c <= '9') || c == '+' || c
        == '/' || c == '='
}

/// Largest plaintext, in bytes, that AES-GCM accepts (`aes_gcm::P_MAX`, 2^36).
pub open spec fn aes_gcm_max_plaintext() -> nat {
    0x10_0000_0000
}

/// Calls `base64::engine::general_purpose::STANDARD.encode(bytes)`.
///
/// Claimed: the result is the named encoding of `bytes`; the standard engine decodes it
/// back to `bytes` (canonical padded encoding, decoded with canonical padding required);
/// its length is four characters per started group of three bytes (`encoded_len` with
/// padding); every character is from the standard alphabet or `=`, and `=` stands exactly
/// in the padding at the end (none when the length is a multiple of three, else one or
/// two to complete the last group). The call panics when
/// the encoded length overflows `usize`, which `requires` rules out.
#[verifier::external_body]
pub(crate) fn base64_encode(bytes: &[u8]) -> (res: String)
    requires
        bytes@.len() / 3 * 4 + 4 <= usize::MAX,
    ensures
        res@ == base64_encoding(bytes@),
        base64_decoding(res@) is Ok && base64_decoding(res@)->Ok_0 == bytes@,
        res@.len() == base64_encoded_len(bytes@.len()),
        forall|i: int| 0 <= i < res@.len() ==> is_base64_char(#[trigger] res@[i]),
        forall|i: int|
            0 <= i < res@.len() ==> (#[trigger] res@[i] == '=' <==> i >= res@.len()
                - base64_padding(bytes@.len())),
{
    base64::engine::general_purpose::STANDARD.encode(bytes)
}

/// Calls `base64::engine::general_purpose::STANDARD.decode(text)` and renders a
/// `DecodeError` with its `Display` impl.
///
/// Claimed: the outcome, bytes or error text, is the named decoding of the text.
#[verifier::external_body]
pub(crate) fn base64_decode(text: &str) -> (res: Result<Vec<u8>, String>)
    ensures
        res is Ok <==> base64_decoding(text@) is Ok,
        res matches Ok(bytes) ==> base64_decoding(text@)->Ok_0 == bytes@,
        res matches Err(m) ==> base64_decoding(text@)->Err_0 == m@,
{
    base64::engine::general_purpose::STANDARD.decode(text).map_err(|e| e.to_string())
}

/// Builds `aes_gcm::Aes256Gcm` from the 32-byte `key` and calls `Aead::encrypt` with the
/// 12-byte `nonce` and `plaintext` (no associated data).
///
/// Claimed: it fails exactly when the plaintext exceeds `P_MAX`; otherwise the result is the
/// named sealing, 16 bytes longer than the plaintext (a `Vec`, so at most `isize::MAX`
/// bytes), and opening it under the same key and nonce gives the plaintext back (AEAD
/// correctness). Wrong key or nonce lengths make
/// `from_slice` panic, which `requires` rules out.
#[verifier::external_body]
pub(crate) fn aes256gcm_encrypt(key: &[u8], nonce: &[u8], plaintext: &[u8]) -> (res: Result<
    Vec<u8>,
    aes_gcm::Error,
>)
    requires
        key@.len() == 32,
        nonce@.len() == 12,
    ensures
        res is Ok <==> plaintext@.len() <= aes_gcm_max_plaintext(),
        res matches Ok(c) ==> c@ == aes256gcm_seal(key@, nonce@, plaintext@),
        res matches Ok(c) ==> c@.len() == plaintext@.len() + 16,
        res matches Ok(c) ==> c@.len() <= isize::MAX,
        res matches Ok(c) ==> aes256gcm_open(key@, nonce@, c@) == Some(plaintext@),
{
    let cipher = aes_gcm::Aes256Gcm::new(aes_gcm::Key::<aes_gcm::Aes256Gcm>::from_slice(key));
    cipher.encrypt(aes_gcm::Nonce::from_slice(nonce), plaintext)
}

/// Builds `aes_gcm::Aes256Gcm` from the 32-byte `key` and calls `Aead::decrypt` with the
/// 12-byte `nonce` and `ciphertext` (no associated data).
///
/// Claimed: it succeeds exactly where the named opening is defined and then returns it.
/// Wrong key or nonce lengths make `from_slice` panic, which `requires` rules out.
#[verifier::external_body]
pub(crate) fn aes256gcm_decrypt(key: &[u8], nonce: &[u8], ciphertext: &[u8]) -> (res: Result<
    Vec<u8>,
    aes_gcm::Error,
>)
    requires
        key@.len() == 32,
        nonce@.len() == 12,
    ensures
        res is Ok <==> aes256gcm_open(key@, nonce@, ciphertext@) is Some,
        res matches Ok(p) ==> aes256gcm_open(key@, nonce@, ciphertext@) == Some(p@),
{
    let cipher = aes_gcm::Aes256Gcm::new(aes_gcm::Key::<aes_gcm::Aes256Gcm>::from_slice(key));
    cipher.decrypt(aes_gcm::Nonce::from_slice(nonce), ciphertext)
}

/// Renders an `aes_gcm::Error` with its `Display` impl (`to_string`).
///
/// Claimed: the text is `aead::Error`, which is all that impl in the `aead` crate writes.
#[verifier::external_body]
pub(crate) fn aead_error_text(err: &aes_gcm::Error) -> (res: String)
    ensures
        res@ == "aead::Error"@,
{
    err.to_string()
}

/// Calls `rand::rngs::OsRng.fill_bytes` on the whole buffer.
///
/// Claimed: only that the length is kept. The bytes come from the operating system's
/// generator and nothing is said of them. `OsRng` panics if the operating system cannot
/// supply randomness; no `requires` can rule that out.
#[verifier::external_body]
pub(crate) fn fill_random(buf: &mut Vec<u8>)
    ensures
        final(buf)@.len() == old(buf)@.len(),
{
    rand::rngs::OsRng.fill_bytes(buf.as_mut_slice())
}

/// Calls `String::push`.
///
/// Claimed, as std documents it: the character is appended to the end of the string.
#[verifier::external_body]
pub(crate) fn push_char(s: &mut String, c: char)
    ensures
        final(s)@ == old(s)@.push(c),
{
    s.push(c);
}

/// Calls `String::from_utf8(bytes)` and renders a `FromUtf8Error` with its `Display` impl.
///
/// Claimed, as std documents it: it succeeds exactly on valid UTF-8 and then holds the
/// characters those bytes encode; otherwise the error text is the named one for the bytes.
#[verifier::external_body]
pub(crate) fn string_from_utf8(bytes: Vec<u8>) -> (res: Result<String, String>)
    ensures
        res is Ok <==> valid_utf8(bytes@),
        res matches Ok(s) ==> s@ == decode_utf8(bytes@),
        res matches Err(m) ==> m@ == utf8_error_text(bytes@),
{
    String::from_utf8(bytes).map_err(|e| e.to_string())
}

} // verus!
