use base64::Engine;
use nila::crypto::Crypto;
use nila::crypto::MASTER_KEY_ID;
use nila::crypto::PREFIX;
use nila::error::AppError;

const ZERO_KEY: &str = "AAAAAAAAAAAAAAAAAAAAAAAAAAAAAAAAAAAAAAAAAAA=";
const COUNTING_KEY: &str = "AAECAwQFBgcICQoLDA0ODxAREhMUFRYXGBkaGxwdHh8=";

fn crypto_message(err: AppError) -> String {
    match err {
        AppError::Crypto(m) => m,
        other => panic!("expected a crypto error, got {:?}", other),
    }
}

#[test]
fn roundtrips() {
    let crypto = Crypto::new(&Crypto::generate_key()).unwrap();
    let secret = "sk-test-1234567890";
    let stored = crypto.encrypt(secret).unwrap();
    assert_ne!(stored, secret);
    assert!(stored.starts_with(PREFIX));
    assert_eq!(crypto.decrypt(&stored).unwrap(), secret);
}

#[test]
fn passes_through_plaintext() {
    let crypto = Crypto::new(&Crypto::generate_key()).unwrap();
    assert_eq!(crypto.decrypt("plain-key").unwrap(), "plain-key");
}

#[test]
fn rejects_tampered_ciphertext() {
    let crypto = Crypto::new(&Crypto::generate_key()).unwrap();
    let mut stored = crypto.encrypt("secret").unwrap();
    stored.push('x');
    assert!(crypto.decrypt(&stored).is_err());
}

#[test]
fn generated_keys_are_32_bytes_in_base64_and_differ() {
    let a = Crypto::generate_key();
    let b = Crypto::generate_key();
    assert_eq!(a.len(), 44);
    assert!(a.ends_with('='));
    assert!(!a[..43].contains('='));
    assert_ne!(a, b);
    assert!(Crypto::new(&a).is_ok());
}

#[test]
fn sealing_with_a_fixed_nonce_matches_aes_256_gcm() {
    let crypto = Crypto::new(ZERO_KEY).unwrap();
    let nonce = [0u8; 12];
    assert_eq!(
        crypto.encrypt_with_nonce("", &nonce).unwrap(),
        "enc.v1:AAAAAAAAAAAAAAAA:Uw+K+8dFNrmpY7TxxMtziw=="
    );
    let zeros = "\0".repeat(16);
    assert_eq!(
        crypto.encrypt_with_nonce(&zeros, &nonce).unwrap(),
        "enc.v1:AAAAAAAAAAAAAAAA:zqdAPU1ga24HTsXTuvOdGNDRyKeZmWvwJluYtdSKuRk="
    );
    assert_eq!(
        crypto.encrypt_with_nonce("héllo", &nonce).unwrap(),
        "enc.v1:AAAAAAAAAAAAAAAA:pmTpUSEPsFLKxjS3qBFNTUiSwNk4ig=="
    );
}

#[test]
fn opens_a_value_sealed_elsewhere() {
    let crypto = Crypto::new(COUNTING_KEY).unwrap();
    let stored = "enc.v1:AAECAwQFBgcICQoL:NGn7b6CWtja8c6S/hN9PVbrm4E7sFunw4xVAPKdVyIYrsA==";
    assert_eq!(crypto.decrypt(stored).unwrap(), "sk-test-1234567890");
    let nonce: Vec<u8> = (0u8..12).collect();
    assert_eq!(crypto.encrypt_with_nonce("sk-test-1234567890", &nonce).unwrap(), stored);
}

#[test]
fn decrypting_under_another_key_fails() {
    let writer = Crypto::new(COUNTING_KEY).unwrap();
    let reader = Crypto::new(ZERO_KEY).unwrap();
    let stored = writer.encrypt("secret").unwrap();
    assert_eq!(crypto_message(reader.decrypt(&stored).unwrap_err()), "aead::Error");
}

#[test]
fn flipped_ciphertext_fails_authentication() {
    let crypto = Crypto::new(ZERO_KEY).unwrap();
    let stored = "enc.v1:AAAAAAAAAAAAAAAA:Vw+K+8dFNrmpY7TxxMtziw==";
    assert_eq!(crypto_message(crypto.decrypt(stored).unwrap_err()), "aead::Error");
}

#[test]
fn malformed_values_are_rejected() {
    let crypto = Crypto::new(ZERO_KEY).unwrap();
    assert_eq!(
        crypto_message(crypto.decrypt("enc.v1:no-separator").unwrap_err()),
        "malformed encrypted value"
    );
    assert!(crypto.decrypt("enc.v1:***:AAAA").is_err());
    assert!(crypto.decrypt("enc.v1:AAAAAAAAAAAAAAAA:***").is_err());
}

#[test]
fn values_near_the_prefix_pass_through() {
    let crypto = Crypto::new(ZERO_KEY).unwrap();
    assert_eq!(crypto.decrypt("enc.v1").unwrap(), "enc.v1");
    assert_eq!(crypto.decrypt("").unwrap(), "");
    assert_eq!(crypto.decrypt("ENC.V1:a:b").unwrap(), "ENC.V1:a:b");
}

#[test]
fn short_nonce_is_reported_instead_of_panicking() {
    let crypto = Crypto::new(ZERO_KEY).unwrap();
    assert!(crypto.try_decrypt("enc.v1:AAAA:AAAA").is_none());
    assert_eq!(crypto.try_decrypt("plain").unwrap().unwrap(), "plain");
    let stored = crypto.encrypt("x").unwrap();
    assert_eq!(crypto.try_decrypt(&stored).unwrap().unwrap(), "x");
}

#[test]
fn master_key_must_be_base64_of_32_bytes() {
    let short = Crypto::new("AAAA").err().unwrap();
    assert_eq!(
        crypto_message(short),
        "invalid master key length: expected 32 bytes, got 3"
    );
    assert!(matches!(Crypto::new("not base64!").err().unwrap(), AppError::Crypto(_)));
    assert!(Crypto::new(ZERO_KEY).is_ok());
}

#[test]
fn cloned_cipher_reads_what_its_source_wrote() {
    let crypto = Crypto::new(COUNTING_KEY).unwrap();
    let copy = crypto.clone();
    let stored = crypto.encrypt("shared").unwrap();
    assert_eq!(copy.decrypt(&stored).unwrap(), "shared");
}

#[test]
fn master_key_setting_name() {
    assert_eq!(MASTER_KEY_ID, "security.master_key");
}

#[test]
fn opened_bytes_must_be_utf8() {
    let crypto = Crypto::new(ZERO_KEY).unwrap();
    assert_eq!(
        crypto.decrypt("enc.v1:AAAAAAAAAAAAAAAA:pmTpUSEPsFLKxjS3qBFNTUiSwNk4ig==").unwrap(),
        "héllo"
    );
    let err = crypto.decrypt("enc.v1:AAAAAAAAAAAAAAAA:MVlM+TPgqY6HJ3pl6Npd5Xj/").unwrap_err();
    assert!(matches!(err, AppError::Crypto(_)));
}

#[test]
fn sealed_values_have_fixed_field_shapes() {
    let crypto = Crypto::new(ZERO_KEY).unwrap();
    let plaintext = "a longer secret value";
    let stored = crypto.encrypt(plaintext).unwrap();
    let body = stored.strip_prefix(PREFIX).unwrap();
    let (nonce, ct) = body.split_once(':').unwrap();
    assert_eq!(nonce.len(), 16);
    assert!(!ct.contains(':'));
    let ct_bytes = base64::engine::general_purpose::STANDARD.decode(ct).unwrap();
    assert_eq!(ct_bytes.len(), plaintext.len() + 16);
}

#[test]
fn decode_failures_report_the_decoder_text() {
    let expected = base64::engine::general_purpose::STANDARD.decode("AAA").unwrap_err().to_string();
    assert_eq!(crypto_message(Crypto::new("AAA").err().unwrap()), expected);
    let crypto = Crypto::new(ZERO_KEY).unwrap();
    assert_eq!(crypto_message(crypto.decrypt("enc.v1:AAA:AAAA").unwrap_err()), expected);
}
