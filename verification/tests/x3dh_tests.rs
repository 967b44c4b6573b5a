use base64::Engine;
use cryptraits::convert::FromBytes;
use cryptraits::signature::Verify;
use x3dh_core::util::{KeyBundle, MsgPayload, OpAuthPayload};
use x3dh_core::x3dh::{alice_x3dh, bob_x3dh, get_key_pair, get_keybundle, ONETIME_KEY_COUNT};
use x3dh_core::xxxdh::{Protocol, XxxDhError};

fn b64d(s: &str) -> Vec<u8> {
    base64::engine::general_purpose::STANDARD.decode(s).unwrap()
}

fn b64e(b: &[u8]) -> String {
    base64::engine::general_purpose::STANDARD.encode(b)
}

#[test]
fn check_secret_sharing_x3dh() {
    // Instantiate Alice protocol.

    let alice_bundle = get_keybundle();
    let alice_identity = get_key_pair(&alice_bundle.identity).unwrap();
    let alice_prekey = get_key_pair(&alice_bundle.prekey).unwrap();
    let alice_signature = b64d(&alice_bundle.signature.public);
    let mut alice_protocol = Protocol::new(alice_identity, alice_prekey, alice_signature, None);

    // Instantiate Bob protocol.

    let bob_bundle = get_keybundle();
    let bob_identity = get_key_pair(&bob_bundle.identity).unwrap();
    let bob_prekey = get_key_pair(&bob_bundle.prekey).unwrap();
    let bob_signature = b64d(&bob_bundle.signature.public);
    let onetime_keypair = get_key_pair(&bob_bundle.onetime_keys[0]).unwrap();
    let onetime_public = onetime_keypair.public.clone();
    let mut bob_protocol =
        Protocol::new(bob_identity, bob_prekey, bob_signature, Some(vec![onetime_keypair]));

    // Derive shared secret for Alice and prepare message for Bob.

    let bob_identity_pub = b64d(&bob_bundle.identity.public);
    let bob_prekey_pub = b64d(&bob_bundle.prekey.public);
    let bob_prekey_signature = b64d(&bob_bundle.signature.public);

    let (alice_identity_pub, alice_ephemeral_key, bob_onetime_key, alice_sk, nonce, ciphertext) =
        alice_protocol
            .prepare_init_msg(
                &bob_identity_pub,
                &bob_prekey_pub,
                &bob_prekey_signature,
                &onetime_public,
            )
            .unwrap();

    // Derive shared secret for Bob using Alice credentials.

    let bob_sk = bob_protocol
        .derive_shared_secret(
            &alice_identity_pub,
            &alice_ephemeral_key,
            &bob_onetime_key,
            &nonce,
            &ciphertext,
        )
        .unwrap();

    assert_eq!(alice_sk, bob_sk);
}

#[test]
fn bundle_generation_shape() {
    let bundle = get_keybundle();
    assert_eq!(bundle.onetime_keys.len(), ONETIME_KEY_COUNT);
    assert!(bundle.identity.private.is_some());
    assert!(bundle.prekey.private.is_some());
    assert!(bundle.signature.private.is_none());
    assert!(bundle.ephemeral_key.is_none());
    for otk in &bundle.onetime_keys {
        assert!(otk.private.is_some());
    }
    // raw key sizes
    assert_eq!(b64d(&bundle.identity.public).len(), 32);
    assert_eq!(b64d(&bundle.identity.private.clone().unwrap()).len(), 64);
    assert_eq!(b64d(&bundle.signature.public).len(), 64);
}

#[test]
fn bundle_signature_verifies() {
    let bundle = get_keybundle();
    let ik = cryptimitives::key::x25519_ristretto::PublicKey::from_bytes(&b64d(
        &bundle.identity.public,
    ))
    .unwrap();
    let sig = cryptimitives::key::x25519_ristretto::Signature::from_bytes(&b64d(
        &bundle.signature.public,
    ))
    .unwrap();
    let prekey_bytes = b64d(&bundle.prekey.public);
    assert!(ik.verify(&prekey_bytes, &sig).is_ok());
}

#[test]
fn strip_removes_every_private_and_keeps_publics() {
    let bundle = get_keybundle();
    let mut stripped = bundle.clone();
    stripped.strip();
    assert!(stripped.identity.private.is_none());
    assert!(stripped.prekey.private.is_none());
    assert!(stripped.signature.private.is_none());
    assert_eq!(stripped.identity.public, bundle.identity.public);
    assert_eq!(stripped.prekey.public, bundle.prekey.public);
    assert_eq!(stripped.signature.public, bundle.signature.public);
    assert_eq!(stripped.onetime_keys.len(), bundle.onetime_keys.len());
    for (s, o) in stripped.onetime_keys.iter().zip(bundle.onetime_keys.iter()) {
        assert!(s.private.is_none());
        assert_eq!(s.public, o.public);
    }
}

#[test]
fn strip_is_idempotent() {
    let bundle = get_keybundle();
    let mut once = bundle.clone();
    once.strip();
    let mut twice = once.clone();
    twice.strip();
    assert_eq!(once.identity.public, twice.identity.public);
    assert!(once.identity.private.is_none() && twice.identity.private.is_none());
    assert_eq!(once.prekey.public, twice.prekey.public);
    assert_eq!(once.signature.public, twice.signature.public);
    assert_eq!(once.onetime_keys.len(), twice.onetime_keys.len());
    for (a, b) in once.onetime_keys.iter().zip(twice.onetime_keys.iter()) {
        assert_eq!(a.public, b.public);
        assert!(a.private.is_none() && b.private.is_none());
    }
}

#[test]
fn tampered_prekey_signature_is_rejected() {
    let alice_bundle = get_keybundle();
    let alice_identity = get_key_pair(&alice_bundle.identity).unwrap();
    let alice_prekey = get_key_pair(&alice_bundle.prekey).unwrap();
    let alice_signature = b64d(&alice_bundle.signature.public);
    let mut alice_protocol = Protocol::new(alice_identity, alice_prekey, alice_signature, None);

    let bob_bundle = get_keybundle();
    let bob_identity_pub = b64d(&bob_bundle.identity.public);
    let bob_prekey_pub = b64d(&bob_bundle.prekey.public);
    let mut bad_signature = b64d(&bob_bundle.signature.public);
    bad_signature[3] ^= 0x40;
    let otk_pub = b64d(&bob_bundle.onetime_keys[0].public);

    let r = alice_protocol.prepare_init_msg(
        &bob_identity_pub,
        &bob_prekey_pub,
        &bad_signature,
        &otk_pub,
    );
    assert!(matches!(r, Err(XxxDhError::BadPrekeySignature)));
}

#[test]
fn responder_rejects_unknown_prekey() {
    let bob_bundle = get_keybundle();
    let bob_identity = get_key_pair(&bob_bundle.identity).unwrap();
    let bob_prekey = get_key_pair(&bob_bundle.prekey).unwrap();
    let bob_signature = b64d(&bob_bundle.signature.public);
    let onetime_keypair = get_key_pair(&bob_bundle.onetime_keys[0]).unwrap();
    let mut bob_protocol =
        Protocol::new(bob_identity, bob_prekey, bob_signature, Some(vec![onetime_keypair]));

    // a one-time key bob never issued
    let other = get_keybundle();
    let foreign_otk = b64d(&other.onetime_keys[0].public);
    let some_point = b64d(&other.identity.public);
    let r = bob_protocol.derive_shared_secret(
        &some_point,
        &some_point,
        &foreign_otk,
        &[0u8; 12],
        &[0u8; 16],
    );
    assert!(matches!(r, Err(XxxDhError::UnknownPrekey)));
}

#[test]
fn responder_rejects_empty_prekey_list() {
    let bob_bundle = get_keybundle();
    let bob_identity = get_key_pair(&bob_bundle.identity).unwrap();
    let bob_prekey = get_key_pair(&bob_bundle.prekey).unwrap();
    let bob_signature = b64d(&bob_bundle.signature.public);
    let otk_pub = b64d(&bob_bundle.onetime_keys[0].public);

    let mut without = Protocol::new(
        get_key_pair(&bob_bundle.identity).unwrap(),
        get_key_pair(&bob_bundle.prekey).unwrap(),
        bob_signature.clone(),
        None,
    );
    let r = without.derive_shared_secret(&otk_pub, &otk_pub, &otk_pub, &[0u8; 12], &[0u8; 16]);
    assert!(matches!(r, Err(XxxDhError::EmptyPrekeyList)));

    let mut empty = Protocol::new(bob_identity, bob_prekey, bob_signature, Some(Vec::new()));
    let r = empty.derive_shared_secret(&otk_pub, &otk_pub, &otk_pub, &[0u8; 12], &[0u8; 16]);
    assert!(matches!(r, Err(XxxDhError::EmptyPrekeyList)));
}

#[test]
fn responder_rejects_tampered_handshake_ciphertext() {
    let alice_bundle = get_keybundle();
    let mut alice_protocol = Protocol::new(
        get_key_pair(&alice_bundle.identity).unwrap(),
        get_key_pair(&alice_bundle.prekey).unwrap(),
        b64d(&alice_bundle.signature.public),
        None,
    );

    let bob_bundle = get_keybundle();
    let onetime_keypair = get_key_pair(&bob_bundle.onetime_keys[0]).unwrap();
    let onetime_public = onetime_keypair.public.clone();
    let mut bob_protocol = Protocol::new(
        get_key_pair(&bob_bundle.identity).unwrap(),
        get_key_pair(&bob_bundle.prekey).unwrap(),
        b64d(&bob_bundle.signature.public),
        Some(vec![onetime_keypair]),
    );

    let (alice_identity_pub, alice_ephemeral_key, bob_onetime_key, _alice_sk, nonce, ciphertext) =
        alice_protocol
            .prepare_init_msg(
                &b64d(&bob_bundle.identity.public),
                &b64d(&bob_bundle.prekey.public),
                &b64d(&bob_bundle.signature.public),
                &onetime_public,
            )
            .unwrap();

    let mut bad_ct = ciphertext.clone();
    bad_ct[0] ^= 0x01;
    let r = bob_protocol.derive_shared_secret(
        &alice_identity_pub,
        &alice_ephemeral_key,
        &bob_onetime_key,
        &nonce,
        &bad_ct,
    );
    assert!(matches!(r, Err(XxxDhError::AeadError)));
}

fn bundle_response(own_user: &str, peer_user: &str, peer_bundle: KeyBundle) -> MsgPayload {
    MsgPayload {
        content: None,
        timestamp: 0,
        auth: Some(OpAuthPayload {
            action: String::from("fetch_bundle"),
            user: String::from(peer_user),
            password: String::new(),
            keybundle: Some(peer_bundle),
            message: String::new(),
            success: Some(true),
        }),
        message_id: String::new(),
        author: String::from("server"),
        recipient: String::from(own_user),
    }
}

#[test]
fn alice_and_bob_agree_through_wire_bundles() {
    let alice_full = get_keybundle();
    let bob_full = get_keybundle();
    let mut bob_public = bob_full.clone();
    bob_public.strip();

    let response = bundle_response("alice", "bob", bob_public);
    let (handshake, peer, alice_sk) = alice_x3dh(&alice_full, &response).unwrap();
    assert_eq!(peer, "bob");
    assert_eq!(alice_sk.len(), 32);
    let auth = handshake.auth.as_ref().unwrap();
    assert_eq!(auth.action, "x3dh");
    assert_eq!(handshake.author, "alice");
    assert_eq!(handshake.recipient, "bob");
    let hb = auth.keybundle.as_ref().unwrap();
    assert!(hb.ephemeral_key.is_some());
    assert_eq!(hb.onetime_keys.len(), 1);
    assert_eq!(hb.onetime_keys[0].public, bob_full.onetime_keys[0].public);

    let (author, bob_sk) = bob_x3dh(&bob_full, &handshake).unwrap();
    assert_eq!(author, "alice");
    assert_eq!(alice_sk, bob_sk);
}

#[test]
fn alice_rejects_tampered_wire_signature() {
    let alice_full = get_keybundle();
    let bob_full = get_keybundle();
    let mut bob_public = bob_full.clone();
    bob_public.strip();
    let mut sig = b64d(&bob_public.signature.public);
    sig[10] ^= 0x04;
    bob_public.signature.public = b64e(&sig);

    let response = bundle_response("alice", "bob", bob_public);
    let r = alice_x3dh(&alice_full, &response);
    assert!(matches!(r, Err(x3dh_core::util::Error::Signature)));
}

#[test]
fn bob_rejects_handshake_naming_foreign_prekey() {
    let alice_full = get_keybundle();
    let bob_full = get_keybundle();
    let mut bob_public = bob_full.clone();
    bob_public.strip();

    let response = bundle_response("alice", "bob", bob_public);
    let (mut handshake, _, _) = alice_x3dh(&alice_full, &response).unwrap();

    // replace the named one-time key with one bob never issued
    let other = get_keybundle();
    handshake.auth.as_mut().unwrap().keybundle.as_mut().unwrap().onetime_keys[0].public =
        other.onetime_keys[0].public.clone();
    let r = bob_x3dh(&bob_full, &handshake);
    assert!(matches!(r, Err(x3dh_core::util::Error::UnknownPrekey)));
}

#[test]
fn get_key_pair_requires_private_half() {
    let bundle = get_keybundle();
    let mut public_only = bundle.identity.clone();
    public_only.private = None;
    assert!(matches!(get_key_pair(&public_only), Err(x3dh_core::util::Error::Decode)));

    let mut garbled = bundle.identity.clone();
    garbled.private = Some(String::from("*not base64*"));
    assert!(matches!(get_key_pair(&garbled), Err(x3dh_core::util::Error::Decode)));
}

#[test]
fn alice_rejects_bundle_without_onetime_keys() {
    let alice_full = get_keybundle();
    let bob_full = get_keybundle();
    let mut bob_public = bob_full.clone();
    bob_public.strip();
    bob_public.onetime_keys.clear();

    let response = bundle_response("alice", "bob", bob_public);
    let r = alice_x3dh(&alice_full, &response);
    assert!(matches!(r, Err(x3dh_core::util::Error::EmptyPrekeyList)));
}

#[test]
fn alice_rejects_envelope_without_bundle() {
    let alice_full = get_keybundle();
    let bare = MsgPayload {
        content: None,
        timestamp: 0,
        auth: None,
        message_id: String::new(),
        author: String::new(),
        recipient: String::from("alice"),
    };
    assert!(matches!(alice_x3dh(&alice_full, &bare), Err(x3dh_core::util::Error::Custom(_))));
}
