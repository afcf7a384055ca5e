//! AES-256-GCM protection of secrets at rest (for example model API keys).
//!
//! Encrypted values are stored as `enc.v1:<nonce_b64>:<ciphertext_b64>` so the
//! scheme can be versioned later. Values without the prefix pass through
//! untouched, keeping reads tolerant of plaintext rows written before
//! encryption existed.

use crate::error::AppError;
use crate::primitives::aead_error_text;
use crate::primitives::aes256gcm_decrypt;
use crate::primitives::aes256gcm_encrypt;
use crate::primitives::aes256gcm_open;
use crate::primitives::aes256gcm_seal;
use crate::primitives::aes_gcm_max_plaintext;
use crate::primitives::base64_decode;
use crate::primitives::base64_decoding;
use crate::primitives::base64_encode;
use crate::primitives::base64_encoded_len;
use crate::primitives::base64_encoding;
use crate::primitives::base64_padding;
use crate::primitives::fill_random;
use crate::primitives::is_base64_char;
use crate::primitives::string_from_utf8;
use crate::primitives::utf8_error_text;
use crate::text::chars_of;
use crate::text::decimal;
use crate::text::format_u64;
use crate::text::string_from_range;
use vstd::prelude::*;
use vstd::string::*;
use vstd::utf8::*;

verus! {

/// Marks a stored value as encrypted with the first version of the scheme.
pub const PREFIX: &'static str = "enc.v1:";

/// Length of the AES-256 key, in bytes.
pub const KEY_LEN: usize = 32;

/// Length of the AES-GCM nonce, in bytes.
pub const NONCE_LEN: usize = 12;

/// Settings key under which the base64 master key is persisted.
pub const MASTER_KEY_ID: &'static str = "security.master_key";

/// The characters of [`PREFIX`].
pub open spec fn prefix_chars() -> Seq<char> {
    seq!['e', 'n', 'c', '.', 'v', '1', ':']
}

/// The stored value carries the encryption prefix.
pub open spec fn is_sealed(stored: Seq<char>) -> bool {
    7 <= stored.len() && stored.subrange(0, 7) == prefix_chars()
}

/// What follows the prefix.
pub open spec fn payload(stored: Seq<char>) -> Seq<char> {
    stored.subrange(7, stored.len() as int)
}

/// `i` is the position of the first `:` in `s`.
pub open spec fn is_first_colon(s: Seq<char>, i: int) -> bool {
    &&& 0 <= i < s.len()
    &&& s[i] == ':'
    &&& forall|j: int| 0 <= j < i ==> s[j] != ':'
}

/// `s` contains a `:`.
pub open spec fn has_colon(s: Seq<char>) -> bool {
    exists|i: int| is_first_colon(s, i)
}

/// Position of the first `:` of `s` (meaningful where `has_colon(s)`).
pub open spec fn first_colon(s: Seq<char>) -> int {
    choose|i: int| is_first_colon(s, i)
}

/// The base64 nonce field of a sealed value: the payload up to its first `:`.
pub open spec fn nonce_text(stored: Seq<char>) -> Seq<char> {
    payload(stored).subrange(0, first_colon(payload(stored)))
}

/// The base64 ciphertext field of a sealed value: the payload after its first `:`.
pub open spec fn ciphertext_text(stored: Seq<char>) -> Seq<char> {
    payload(stored).subrange(first_colon(payload(stored)) + 1, payload(stored).len() as int)
}

/// A prefixed value without the `:` that separates its two fields.
pub open spec fn is_malformed(stored: Seq<char>) -> bool {
    is_sealed(stored) && !has_colon(payload(stored))
}

/// Both fields decode but the nonce is not 12 bytes long: the cipher's nonce
/// conversion panics on such a value instead of returning an error.
pub open spec fn nonce_length_mismatch(stored: Seq<char>) -> bool {
    &&& is_sealed(stored)
    &&& has_colon(payload(stored))
    &&& base64_decoding(ciphertext_text(stored)) is Ok
    &&& base64_decoding(nonce_text(stored)) matches Ok(n) && n.len() != NONCE_LEN
}

/// What `stored` reads back as under `key`: the plaintext, or the text of the error
/// reading it fails with.
pub open spec fn opened_text(key: Seq<u8>, stored: Seq<char>) -> Result<Seq<char>, Seq<char>> {
    if !is_sealed(stored) {
        Ok(stored)
    } else if !has_colon(payload(stored)) {
        Err("malformed encrypted value"@)
    } else {
        match base64_decoding(nonce_text(stored)) {
            Err(m) => Err(m),
            Ok(n) => match base64_decoding(ciphertext_text(stored)) {
                Err(m) => Err(m),
                Ok(c) => match aes256gcm_open(key, n, c) {
                    None => Err("aead::Error"@),
                    Some(p) => if valid_utf8(p) {
                        Ok(decode_utf8(p))
                    } else {
                        Err(utf8_error_text(p))
                    },
                },
            },
        }
    }
}

/// Both fields decode but the ciphertext does not authenticate under `key`.
pub open spec fn fails_authentication(key: Seq<u8>, stored: Seq<char>) -> bool {
    &&& is_sealed(stored)
    &&& has_colon(payload(stored))
    &&& base64_decoding(nonce_text(stored)) is Ok
    &&& base64_decoding(ciphertext_text(stored)) is Ok
    &&& aes256gcm_open(
        key,
        base64_decoding(nonce_text(stored))->Ok_0,
        base64_decoding(ciphertext_text(stored))->Ok_0,
    ) is None
}

/// The stored form of `plaintext` sealed under `key` with `nonce`.
pub open spec fn sealed_text(key: Seq<u8>, nonce: Seq<u8>, plaintext: Seq<char>) -> Seq<char> {
    prefix_chars() + base64_encoding(nonce) + seq![':'] + base64_encoding(
        aes256gcm_seal(key, nonce, encode_utf8(plaintext)),
    )
}

/// The base64 text decodes to a 256-bit key.
pub open spec fn accepts_master_key(text: Seq<char>) -> bool {
    base64_decoding(text) matches Ok(k) && k.len() == KEY_LEN
}

/// The shape of a sealed value: the ciphertext is 16 bytes longer than the plaintext's
/// UTF-8 bytes, the nonce field is 16 characters, and both fields hold only base64
/// characters (so neither holds a `:`).
pub open spec fn well_formed_seal(key: Seq<u8>, nonce: Seq<u8>, plaintext: Seq<char>) -> bool {
    let ct = aes256gcm_seal(key, nonce, encode_utf8(plaintext));
    &&& ct.len() == encode_utf8(plaintext).len() + 16
    &&& base64_encoding(nonce).len() == 16
    &&& forall|i: int|
        0 <= i < base64_encoding(nonce).len() ==> is_base64_char(#[trigger] base64_encoding(nonce)[i])
    &&& forall|i: int|
        0 <= i < base64_encoding(ct).len() ==> is_base64_char(#[trigger] base64_encoding(ct)[i])
}

/// The plaintext is small enough for AES-GCM.
pub open spec fn fits_cipher(plaintext: Seq<char>) -> bool {
    encode_utf8(plaintext).len() <= aes_gcm_max_plaintext()
}

/// What reading `stored` under `key` returns, as `Crypto::decrypt` promises it: exactly
/// the plaintext or the error text of `opened_text`, as a crypto error.
pub open spec fn decrypt_outcome(key: Seq<u8>, stored: Seq<char>, res: Result<String, AppError>) -> bool {
    &&& res is Ok <==> opened_text(key, stored) is Ok
    &&& res matches Ok(p) ==> opened_text(key, stored) == Ok::<Seq<char>, Seq<char>>(p@)
    &&& res matches Err(e) ==> (e matches AppError::Crypto(m) && opened_text(key, stored) == Err::<
        Seq<char>,
        Seq<char>,
    >(m@))
    &&& !is_sealed(stored) ==> (res matches Ok(p) && p@ == stored)
    &&& is_malformed(stored) ==> (res matches Err(AppError::Crypto(m)) && m@
        == "malformed encrypted value"@)
    &&& fails_authentication(key, stored) ==> (res matches Err(AppError::Crypto(m)) && m@
        == "aead::Error"@)
}

/// Reading back what encryption stored gives the plaintext: whenever a stored value opens
/// to `plaintext` (as every output of `Crypto::encrypt` does), any result that
/// `Crypto::decrypt` may return for it is `Ok` with exactly that plaintext.
pub proof fn law_decrypt_inverts_encrypt(
    key: Seq<u8>,
    stored: Seq<char>,
    plaintext: Seq<char>,
    res: Result<String, AppError>,
)
    requires
        opened_text(key, stored) == Ok::<Seq<char>, Seq<char>>(plaintext),
        decrypt_outcome(key, stored, res),
    ensures
        res matches Ok(p) && p@ == plaintext,
{
}

/// Values without the prefix read back unchanged, under every key.
pub proof fn law_plaintext_passes_through(key: Seq<u8>, stored: Seq<char>)
    requires
        !is_sealed(stored),
    ensures
        opened_text(key, stored) == Ok::<Seq<char>, Seq<char>>(stored),
        !nonce_length_mismatch(stored),
{
}

/// A stored value counts as sealed exactly when it starts with [`PREFIX`].
pub proof fn law_sealed_means_prefixed(stored: Seq<char>)
    ensures
        is_sealed(stored) <==> (stored.len() >= PREFIX@.len() && stored.subrange(
            0,
            PREFIX@.len() as int,
        ) == PREFIX@),
{
    reveal_strlit("enc.v1:");
    assert(PREFIX@ =~= prefix_chars());
}

/// Every sealed value carries the prefix, so it never passes through unread.
pub proof fn law_sealed_values_are_prefixed(key: Seq<u8>, nonce: Seq<u8>, plaintext: Seq<char>)
    ensures
        is_sealed(sealed_text(key, nonce, plaintext)),
{
    assert(sealed_text(key, nonce, plaintext).subrange(0, 7) =~= prefix_chars());
}

proof fn lemma_first_colon_unique(s: Seq<char>, i: int, j: int)
    requires
        is_first_colon(s, i),
        is_first_colon(s, j),
    ensures
        i == j,
{
    if i < j {
        assert(s[i] != ':');
    } else if j < i {
        assert(s[j] != ':');
    }
}

/// Reading back a value sealed under `key` with a 12-byte nonce gives the plaintext.
proof fn lemma_sealed_opens(
    key: Seq<u8>,
    nonce: Seq<u8>,
    plaintext: Seq<char>,
    nonce_b64: Seq<char>,
    ct: Seq<u8>,
    ct_b64: Seq<char>,
)
    requires
        nonce.len() == NONCE_LEN,
        nonce_b64 == base64_encoding(nonce),
        base64_decoding(nonce_b64) == Ok::<Seq<u8>, Seq<char>>(nonce),
        forall|i: int| 0 <= i < nonce_b64.len() ==> is_base64_char(#[trigger] nonce_b64[i]),
        ct == aes256gcm_seal(key, nonce, encode_utf8(plaintext)),
        aes256gcm_open(key, nonce, ct) == Some(encode_utf8(plaintext)),
        ct_b64 == base64_encoding(ct),
        base64_decoding(ct_b64) == Ok::<Seq<u8>, Seq<char>>(ct),
    ensures
        is_sealed(sealed_text(key, nonce, plaintext)),
        opened_text(key, sealed_text(key, nonce, plaintext)) == Ok::<Seq<char>, Seq<char>>(
            plaintext,
        ),
        !nonce_length_mismatch(sealed_text(key, nonce, plaintext)),
{
    let s = sealed_text(key, nonce, plaintext);
    assert(s.subrange(0, 7) =~= prefix_chars());
    let p = payload(s);
    assert(p =~= nonce_b64 + seq![':'] + ct_b64);
    let n = nonce_b64.len() as int;
    assert forall|j: int| 0 <= j < n implies p[j] != ':' by {
        assert(p[j] == nonce_b64[j]);
        assert(is_base64_char(nonce_b64[j]));
    }
    assert(is_first_colon(p, n));
    lemma_first_colon_unique(p, first_colon(p), n);
    assert(nonce_text(s) =~= nonce_b64);
    assert(ciphertext_text(s) =~= ct_b64);
    encode_utf8_valid_utf8(plaintext);
    encode_utf8_decode_utf8(plaintext);
}

fn is_sealed_exec(chars: &Vec<char>) -> (res: bool)
    ensures
        res == is_sealed(chars@),
{
    if chars.len() < 7 {
        return false;
    }
    let res = chars[0] == 'e' && chars[1] == 'n' && chars[2] == 'c' && chars[3] == '.' && chars[4]
        == 'v' && chars[5] == '1' && chars[6] == ':';
    proof {
        let head = chars@.subrange(0, 7);
        if res {
            assert(head =~= prefix_chars());
        } else if head == prefix_chars() {
            assert(head[0] == chars@[0] && head[1] == chars@[1] && head[2] == chars@[2]);
            assert(head[3] == chars@[3] && head[4] == chars@[4] && head[5] == chars@[5]);
            assert(head[6] == chars@[6]);
        }
    }
    res
}

/// Splits the payload of a sealed value at its first `:`.
fn split_payload(chars: &Vec<char>) -> (res: Option<(String, String)>)
    requires
        is_sealed(chars@),
    ensures
        res is Some <==> has_colon(payload(chars@)),
        res matches Some((n, c)) ==> n@ == nonce_text(chars@) && c@ == ciphertext_text(chars@),
{
    let ghost p = payload(chars@);
    let len = chars.len();
    let mut i: usize = 7;
    while i < len
        invariant
            7 <= i <= len,
            len == chars@.len(),
            p == payload(chars@),
            forall|j: int| 0 <= j < i - 7 ==> p[j] != ':',
        decreases len - i,
    {
        if chars[i] == ':' {
            proof {
                let k = i - 7;
                assert(p[k] == chars@[i as int]);
                assert(is_first_colon(p, k));
                lemma_first_colon_unique(p, first_colon(p), k);
            }
            let n = string_from_range(chars, 7, i);
            let c = string_from_range(chars, i + 1, len);
            assert(n@ =~= nonce_text(chars@));
            assert(c@ =~= ciphertext_text(chars@));
            return Some((n, c));
        }
        i = i + 1;
    }
    assert forall|k: int| !is_first_colon(p, k) by {
        if is_first_colon(p, k) {
            assert(p[k] == ':');
        }
    }
    None
}

/// Holds the AES-256-GCM master key.
pub struct Crypto {
    key: Vec<u8>,
}

impl Crypto {
    #[verifier::type_invariant]
    spec fn key_is_256_bits(self) -> bool {
        self.key@.len() == KEY_LEN
    }

    /// The raw master key.
    pub closed spec fn key_bytes(self) -> Seq<u8> {
        self.key@
    }

    /// Generate a new random 256-bit master key, base64 encoded for storage.
    pub fn generate_key() -> (res: String)
        ensures
            accepts_master_key(res@),
            res@.len() == 44,
            res@[43] == '=' && res@[42] != '=',
            exists|k: Seq<u8>|
                {
                    &&& k.len() == KEY_LEN
                    &&& res@ == base64_encoding(k)
                    &&& base64_decoding(res@) == Ok::<Seq<u8>, Seq<char>>(k)
                },
    {
        let mut key = zeroed(KEY_LEN);
        fill_random(&mut key);
        let text = base64_encode(key.as_slice());
        assert(base64_encoded_len(32) == 44);
        assert(base64_padding(32) == 1);
        assert(text@[43] == '=');
        assert(text@[42] != '=');
        text
    }

    /// Builds the cipher from a base64 master key, which must decode to exactly 32 bytes.
    pub fn new(master_key_b64: &str) -> (res: Result<Crypto, AppError>)
        ensures
            res is Ok <==> accepts_master_key(master_key_b64@),
            res matches Ok(c) ==> base64_decoding(master_key_b64@) == Ok::<Seq<u8>, Seq<char>>(
                c.key_bytes(),
            ),
            res matches Err(e) ==> e is Crypto,
            base64_decoding(master_key_b64@) is Err ==> (res matches Err(AppError::Crypto(m))
                && base64_decoding(master_key_b64@) == Err::<Seq<u8>, Seq<char>>(m@)),
            base64_decoding(master_key_b64@) is Ok && base64_decoding(master_key_b64@)->Ok_0.len()
                != KEY_LEN ==> (res matches Err(AppError::Crypto(m)) && m@
                == "invalid master key length: expected 32 bytes, got "@ + decimal(
                base64_decoding(master_key_b64@)->Ok_0.len() as int,
            )),
    {
        let key = match base64_decode(master_key_b64) {
            Ok(key) => key,
            Err(msg) => return Err(AppError::Crypto(msg)),
        };
        if key.len() != KEY_LEN {
            let mut msg = String::from_str("invalid master key length: expected 32 bytes, got ");
            let got = format_u64(key.len() as u64);
            msg.append(got.as_str());
            return Err(AppError::Crypto(msg));
        }
        Ok(Crypto { key })
    }

    /// Seals `plaintext` with the given 12-byte nonce.
    pub fn encrypt_with_nonce(&self, plaintext: &str, nonce: &[u8]) -> (res: Result<String, AppError>)
        requires
            nonce@.len() == NONCE_LEN,
        ensures
            res is Ok <==> fits_cipher(plaintext@),
            res matches Ok(s) ==> s@ == sealed_text(self.key_bytes(), nonce@, plaintext@),
            res matches Ok(s) ==> well_formed_seal(self.key_bytes(), nonce@, plaintext@),
            res matches Ok(s) ==> opened_text(self.key_bytes(), s@) == Ok::<Seq<char>, Seq<char>>(
                plaintext@,
            ),
            res matches Ok(s) ==> is_sealed(s@) && !nonce_length_mismatch(s@),
            res matches Ok(s) ==> s@.len() >= PREFIX@.len() && s@.subrange(0, PREFIX@.len() as int)
                == PREFIX@,
            res matches Err(e) ==> (e matches AppError::Crypto(m) && m@ == "aead::Error"@),
    {
        proof {
            use_type_invariant(self);
        }
        let bytes = plaintext.as_bytes();
        let ct = match aes256gcm_encrypt(self.key.as_slice(), nonce, bytes) {
            Ok(ct) => ct,
            Err(e) => return Err(AppError::Crypto(aead_error_text(&e))),
        };
        let nonce_b64 = base64_encode(nonce);
        let ct_b64 = base64_encode(ct.as_slice());
        let mut out = String::from_str(PREFIX);
        out.append(nonce_b64.as_str());
        out.append(":");
        out.append(ct_b64.as_str());
        proof {
            reveal_strlit("enc.v1:");
            reveal_strlit(":");
            assert(out@ =~= sealed_text(self.key_bytes(), nonce@, plaintext@));
            assert(base64_encoded_len(12) == 16);
            lemma_sealed_opens(self.key_bytes(), nonce@, plaintext@, nonce_b64@, ct@, ct_b64@);
            law_sealed_means_prefixed(out@);
        }
        Ok(out)
    }

    /// Seals `plaintext` under a fresh random nonce.
    pub fn encrypt(&self, plaintext: &str) -> (res: Result<String, AppError>)
        ensures
            res is Ok <==> fits_cipher(plaintext@),
            res matches Ok(s) ==> exists|n: Seq<u8>|
                {
                    &&& n.len() == NONCE_LEN
                    &&& s@ == sealed_text(self.key_bytes(), n, plaintext@)
                    &&& well_formed_seal(self.key_bytes(), n, plaintext@)
                },
            res matches Ok(s) ==> opened_text(self.key_bytes(), s@) == Ok::<Seq<char>, Seq<char>>(
                plaintext@,
            ),
            res matches Ok(s) ==> is_sealed(s@) && !nonce_length_mismatch(s@),
            res matches Ok(s) ==> s@.len() >= PREFIX@.len() && s@.subrange(0, PREFIX@.len() as int)
                == PREFIX@,
            res matches Err(e) ==> (e matches AppError::Crypto(m) && m@ == "aead::Error"@),
    {
        let mut nonce = zeroed(NONCE_LEN);
        fill_random(&mut nonce);
        let res = self.encrypt_with_nonce(plaintext, nonce.as_slice());
        res
    }

    /// Reads a stored value back: prefixed values are opened, others pass through.
    pub fn decrypt(&self, stored: &str) -> (res: Result<String, AppError>)
        requires
            !nonce_length_mismatch(stored@),
        ensures
            decrypt_outcome(self.key_bytes(), stored@, res),
            !(stored@.len() >= PREFIX@.len() && stored@.subrange(0, PREFIX@.len() as int)
                == PREFIX@) ==> (res matches Ok(p) && p@ == stored@),
    {
        proof {
            law_sealed_means_prefixed(stored@);
        }
        proof {
            use_type_invariant(self);
        }
        let chars = chars_of(stored);
        if !is_sealed_exec(&chars) {
            return Ok(stored.to_owned());
        }
        let (nonce_b64, ct_b64) = match split_payload(&chars) {
            Some(fields) => fields,
            None => return Err(AppError::Crypto(String::from_str("malformed encrypted value"))),
        };
        let nonce = match base64_decode(nonce_b64.as_str()) {
            Ok(nonce) => nonce,
            Err(msg) => return Err(AppError::Crypto(msg)),
        };
        let ct = match base64_decode(ct_b64.as_str()) {
            Ok(ct) => ct,
            Err(msg) => return Err(AppError::Crypto(msg)),
        };
        let pt = match aes256gcm_decrypt(self.key.as_slice(), nonce.as_slice(), ct.as_slice()) {
            Ok(pt) => pt,
            Err(e) => return Err(AppError::Crypto(aead_error_text(&e))),
        };
        match string_from_utf8(pt) {
            Ok(text) => Ok(text),
            Err(msg) => Err(AppError::Crypto(msg)),
        }
    }

    /// Like [`Crypto::decrypt`], but gives `None` on the values where the nonce field decodes
    /// to a length other than 12 bytes (there the cipher's nonce conversion would panic).
    pub fn try_decrypt(&self, stored: &str) -> (res: Option<Result<String, AppError>>)
        ensures
            res is None <==> nonce_length_mismatch(stored@),
            res matches Some(r) ==> decrypt_outcome(self.key_bytes(), stored@, r),
    {
        let chars = chars_of(stored);
        if is_sealed_exec(&chars) {
            if let Some((nonce_b64, ct_b64)) = split_payload(&chars) {
                if let Ok(nonce) = base64_decode(nonce_b64.as_str()) {
                    if let Ok(_) = base64_decode(ct_b64.as_str()) {
                        if nonce.len() != NONCE_LEN {
                            return None;
                        }
                    }
                }
            }
        }
        Some(self.decrypt(stored))
    }
}

impl Clone for Crypto {
    fn clone(&self) -> (res: Self)
        ensures
            res.key_bytes() == self.key_bytes(),
    {
        proof {
            use_type_invariant(self);
        }
        Crypto { key: self.key.clone() }
    }
}

/// A vector of `n` zero bytes.
fn zeroed(n: usize) -> (res: Vec<u8>)
    ensures
        res@.len() == n,
{
    let mut v: Vec<u8> = Vec::new();
    while v.len() < n
        invariant
            v@.len() <= n,
        decreases n - v@.len(),
    {
        v.push(0u8);
    }
    v
}

} // verus!
