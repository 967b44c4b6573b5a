use base64::Engine;
use x3dh_core::crypt::{decrypt, encrypt};
use x3dh_core::util::Error;

#[test]
fn check_symmetry() {
    let key = String::from("VerySecureyPassword123LmaoKek");
    let og_txt = String::from("The cake was a lie!");
    let cipthertext = encrypt(key.to_string(), og_txt.to_string()).unwrap();
    let plaintext = decrypt(key.to_string(), cipthertext.to_string()).unwrap();

    println!(
        "Original: {}\nKey: {}\nCiphertext: {}\nProcessed Result: {}",
        &og_txt, &key, &cipthertext, &plaintext
    );
    assert_eq!(&plaintext, &og_txt);
}

#[test]
fn legacy_roundtrip_empty_message() {
    let key = String::from("k");
    let blob = encrypt(key.clone(), String::new()).unwrap();
    assert_eq!(decrypt(key, blob).unwrap(), "");
}

#[test]
fn legacy_roundtrip_unicode() {
    let key = String::from("pässwörd");
    let msg = String::from("héllo wörld ☃ 你好");
    let blob = encrypt(key.clone(), msg.clone()).unwrap();
    assert_eq!(decrypt(key, blob).unwrap(), msg);
}

#[test]
fn legacy_two_encryptions_differ_but_both_decrypt() {
    let key = String::from("same key");
    let msg = String::from("same message");
    let b1 = encrypt(key.clone(), msg.clone()).unwrap();
    let b2 = encrypt(key.clone(), msg.clone()).unwrap();
    // fresh nonce per encryption
    assert_ne!(b1, b2);
    assert_eq!(decrypt(key.clone(), b1).unwrap(), msg);
    assert_eq!(decrypt(key, b2).unwrap(), msg);
}

#[test]
fn legacy_tampered_ciphertext_fails_auth() {
    let key = String::from("key");
    let blob = encrypt(key.clone(), String::from("attack at dawn")).unwrap();
    let mut raw = base64::engine::general_purpose::STANDARD.decode(&blob).unwrap();
    raw[0] ^= 0x01;
    let tampered = base64::engine::general_purpose::STANDARD.encode(&raw);
    assert_eq!(decrypt(key, tampered), Err(Error::Aead));
}

#[test]
fn legacy_tampered_nonce_fails_auth() {
    let key = String::from("key");
    let blob = encrypt(key.clone(), String::from("attack at dawn")).unwrap();
    let mut raw = base64::engine::general_purpose::STANDARD.decode(&blob).unwrap();
    let last = raw.len() - 1;
    raw[last] ^= 0x80;
    let tampered = base64::engine::general_purpose::STANDARD.encode(&raw);
    assert_eq!(decrypt(key, tampered), Err(Error::Aead));
}

#[test]
fn legacy_wrong_key_fails_auth() {
    let blob = encrypt(String::from("right key"), String::from("secret")).unwrap();
    assert_eq!(decrypt(String::from("wrong key"), blob), Err(Error::Aead));
}

#[test]
fn legacy_invalid_base64_is_decode_error() {
    assert_eq!(decrypt(String::from("k"), String::from("!!not base64!!")), Err(Error::Decode));
}

#[test]
fn legacy_blob_too_short_for_nonce_is_decode_error() {
    let short = base64::engine::general_purpose::STANDARD.encode([1u8, 2, 3, 4, 5]);
    assert_eq!(decrypt(String::from("k"), short), Err(Error::Decode));
}
