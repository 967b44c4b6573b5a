use base64::Engine;
use x3dh_core::client::{
    classify_inbound, decrypt_msg, encrypt_msg, encrypt_with_key, fetch_bundle_payload,
    handle_bundle_response, handle_chat, handle_x3dh, register_payload, send_msg, ClientState,
    InboundKind, SecretStore, SendAction,
};
use x3dh_core::util::{Error, MsgContent, MsgPayload, OpAuthPayload};
use x3dh_core::x3dh::get_keybundle;

fn b64e(b: &[u8]) -> String {
    base64::engine::general_purpose::STANDARD.encode(b)
}

fn b64d(s: &str) -> Vec<u8> {
    base64::engine::general_purpose::STANDARD.decode(s).unwrap()
}

fn chat(author: &str, recipient: &str, cleartext: &str, id: &str) -> MsgPayload {
    MsgPayload {
        content: Some(MsgContent {
            ciphertext: String::new(),
            nonce: String::new(),
            cleartext: Some(String::from(cleartext)),
        }),
        timestamp: 1,
        auth: None,
        message_id: String::from(id),
        author: String::from(author),
        recipient: String::from(recipient),
    }
}

#[test]
fn store_put_get_has() {
    let mut store = SecretStore::new();
    let alice = String::from("alice");
    let bob = String::from("bob");
    assert!(!store.has(&alice));
    assert!(store.get(&alice).is_none());
    store.put(alice.clone(), vec![1u8; 32]);
    store.put(bob.clone(), vec![2u8; 32]);
    assert!(store.has(&alice) && store.has(&bob));
    assert_eq!(store.get(&alice).unwrap(), vec![1u8; 32]);
    assert_eq!(store.get(&bob).unwrap(), vec![2u8; 32]);
}

#[test]
fn store_overwrite_replaces_and_keeps_others() {
    let mut store = SecretStore::new();
    store.put(String::from("alice"), vec![1u8; 32]);
    store.put(String::from("bob"), vec![2u8; 32]);
    store.put(String::from("alice"), vec![9u8; 32]);
    assert_eq!(store.get(&String::from("alice")).unwrap(), vec![9u8; 32]);
    assert_eq!(store.get(&String::from("bob")).unwrap(), vec![2u8; 32]);
}

#[test]
fn session_cipher_roundtrip() {
    let key = vec![7u8; 32];
    let msg = chat("alice", "bob", "hello bob", "m1");
    let sealed = encrypt_with_key(msg, &key).unwrap();
    let c = sealed.content.as_ref().unwrap();
    assert!(c.cleartext.is_none());
    assert_eq!(b64d(&c.nonce).len(), 12);
    let opened = decrypt_msg(sealed, &key).unwrap();
    assert_eq!(opened.content.unwrap().cleartext.unwrap(), "hello bob");
}

#[test]
fn session_cipher_rejects_tampered_ciphertext() {
    let key = vec![7u8; 32];
    let sealed = encrypt_with_key(chat("a", "b", "text", "m"), &key).unwrap();
    let mut bad = sealed;
    let c = bad.content.as_mut().unwrap();
    let mut raw = b64d(&c.ciphertext);
    raw[0] ^= 0x01;
    c.ciphertext = b64e(&raw);
    assert!(matches!(decrypt_msg(bad, &key), Err(Error::Aead)));
}

#[test]
fn session_cipher_rejects_tampered_nonce() {
    let key = vec![7u8; 32];
    let sealed = encrypt_with_key(chat("a", "b", "text", "m"), &key).unwrap();
    let mut bad = sealed;
    let c = bad.content.as_mut().unwrap();
    let mut raw = b64d(&c.nonce);
    raw[11] ^= 0x10;
    c.nonce = b64e(&raw);
    assert!(matches!(decrypt_msg(bad, &key), Err(Error::Aead)));
}

#[test]
fn session_cipher_rejects_wrong_key() {
    let key = vec![7u8; 32];
    let other = vec![8u8; 32];
    let sealed = encrypt_with_key(chat("a", "b", "text", "m"), &key).unwrap();
    assert!(matches!(decrypt_msg(sealed, &other), Err(Error::Aead)));
}

#[test]
fn encrypt_msg_takes_base64_key() {
    let key = vec![3u8; 32];
    let sealed = encrypt_msg(chat("a", "b", "over the wire", "m"), &b64e(&key)).unwrap();
    let opened = decrypt_msg(sealed, &key).unwrap();
    assert_eq!(opened.content.unwrap().cleartext.unwrap(), "over the wire");
}

#[test]
fn encrypt_msg_rejects_bad_key_material() {
    assert!(matches!(
        encrypt_msg(chat("a", "b", "x", "m"), "*not base64*"),
        Err(Error::Decode)
    ));
    // decodes, but not 32 bytes
    assert!(matches!(
        encrypt_msg(chat("a", "b", "x", "m"), &b64e(&[1u8; 16])),
        Err(Error::Aead)
    ));
}

#[test]
fn fetch_bundle_payload_shape() {
    let p = fetch_bundle_payload(String::from("bob"));
    let a = p.auth.unwrap();
    assert_eq!(a.action, "fetch_bundle");
    assert_eq!(a.user, "bob");
    assert!(a.keybundle.is_none() && a.success.is_none());
    assert!(p.content.is_none());
}

#[test]
fn register_payload_attaches_bundle() {
    let bundle = get_keybundle();
    let auth = MsgPayload {
        content: None,
        timestamp: 0,
        auth: Some(OpAuthPayload {
            action: String::from("register"),
            user: String::from("alice"),
            password: String::from("SECRET-REDACTED"),
            keybundle: None,
            message: String::new(),
            success: None,
        }),
        message_id: String::new(),
        author: String::new(),
        recipient: String::new(),
    };
    let out = register_payload(auth, bundle);
    let a = out.auth.unwrap();
    assert_eq!(a.action, "register");
    assert!(a.keybundle.is_some());
}

#[test]
fn send_without_secret_queues_and_fetches() {
    let mut state = ClientState::new();
    let action = send_msg(&mut state, chat("alice", "bob", "hello", "m1")).unwrap();
    match action {
        SendAction::Fetch(f) => {
            let a = f.auth.unwrap();
            assert_eq!(a.action, "fetch_bundle");
            assert_eq!(a.user, "bob");
        },
        SendAction::Send(_) => panic!("expected a bundle request"),
    }
    assert_eq!(state.queue.len(), 1);
}

#[test]
fn send_with_secret_encrypts_directly() {
    let mut state = ClientState::new();
    state.secrets.put(String::from("bob"), vec![5u8; 32]);
    let action = send_msg(&mut state, chat("alice", "bob", "hello", "m1")).unwrap();
    match action {
        SendAction::Send(f) => {
            let opened = decrypt_msg(f, &vec![5u8; 32]).unwrap();
            assert_eq!(opened.content.unwrap().cleartext.unwrap(), "hello");
        },
        SendAction::Fetch(_) => panic!("expected an encrypted frame"),
    }
    assert_eq!(state.queue.len(), 0);
}

#[test]
fn queued_messages_flush_in_submission_order() {
    let alice_full = get_keybundle();
    let bob_full = get_keybundle();
    let mut bob_public = bob_full.clone();
    bob_public.strip();

    let mut alice = ClientState::new();
    let a1 = send_msg(&mut alice, chat("alice", "bob", "hello", "m1")).unwrap();
    assert!(matches!(a1, SendAction::Fetch(_)));
    let a2 = send_msg(&mut alice, chat("alice", "bob", "world", "m2")).unwrap();
    assert!(matches!(a2, SendAction::Fetch(_)));
    assert_eq!(alice.queue.len(), 2);

    let response = MsgPayload {
        content: None,
        timestamp: 0,
        auth: Some(OpAuthPayload {
            action: String::from("fetch_bundle"),
            user: String::from("bob"),
            password: String::new(),
            keybundle: Some(bob_public),
            message: String::new(),
            success: Some(true),
        }),
        message_id: String::new(),
        author: String::from("server"),
        recipient: String::from("alice"),
    };
    assert_eq!(classify_inbound(&response), InboundKind::BundleResponse);

    let (handshake, frames) = handle_bundle_response(&mut alice, &alice_full, response).unwrap();
    assert_eq!(frames.len(), 2);
    assert_eq!(alice.queue.len(), 0);
    assert!(alice.secrets.has(&String::from("bob")));

    // bob receives the handshake, then the two chat frames in order
    let mut bob = ClientState::new();
    assert_eq!(classify_inbound(&handshake), InboundKind::Handshake);
    let author = handle_x3dh(&mut bob, &bob_full, handshake).unwrap();
    assert_eq!(author, "alice");

    assert_eq!(classify_inbound(&frames[0]), InboundKind::Chat);
    let d1 = handle_chat(&bob, frames[0].clone()).unwrap();
    let d2 = handle_chat(&bob, frames[1].clone()).unwrap();
    assert_eq!(d1.content.unwrap().cleartext.unwrap(), "hello");
    assert_eq!(d2.content.unwrap().cleartext.unwrap(), "world");
    assert_eq!(d1.message_id, "m1");
    assert_eq!(d2.message_id, "m2");
}

#[test]
fn flush_keeps_other_peers_queued() {
    let alice_full = get_keybundle();
    let bob_full = get_keybundle();
    let mut bob_public = bob_full.clone();
    bob_public.strip();

    let mut alice = ClientState::new();
    send_msg(&mut alice, chat("alice", "bob", "for bob", "m1")).unwrap();
    send_msg(&mut alice, chat("alice", "carol", "for carol", "m2")).unwrap();

    let response = MsgPayload {
        content: None,
        timestamp: 0,
        auth: Some(OpAuthPayload {
            action: String::from("fetch_bundle"),
            user: String::from("bob"),
            password: String::new(),
            keybundle: Some(bob_public),
            message: String::new(),
            success: Some(true),
        }),
        message_id: String::new(),
        author: String::from("server"),
        recipient: String::from("alice"),
    };
    let (_handshake, frames) = handle_bundle_response(&mut alice, &alice_full, response).unwrap();
    assert_eq!(frames.len(), 1);
    assert_eq!(alice.queue.len(), 1);
    assert_eq!(alice.queue[0].recipient, "carol");
}

#[test]
fn inbound_chat_without_secret_is_refused() {
    let bob = ClientState::new();
    let stray = MsgPayload {
        content: Some(MsgContent {
            ciphertext: b64e(&[1u8; 24]),
            nonce: b64e(&[2u8; 12]),
            cleartext: None,
        }),
        timestamp: 3,
        auth: None,
        message_id: String::from("m9"),
        author: String::from("mallory"),
        recipient: String::from("bob"),
    };
    assert!(matches!(handle_chat(&bob, stray), Err(Error::NoSession)));
}

#[test]
fn classify_inbound_dispatch() {
    let mut msg = fetch_bundle_payload(String::from("bob"));
    assert_eq!(classify_inbound(&msg), InboundKind::BundleResponse);

    msg.auth.as_mut().unwrap().action = String::from("x3dh");
    assert_eq!(classify_inbound(&msg), InboundKind::Handshake);

    msg.auth.as_mut().unwrap().action = String::from("register");
    msg.auth.as_mut().unwrap().success = Some(true);
    assert_eq!(classify_inbound(&msg), InboundKind::CredentialAccepted);

    msg.auth.as_mut().unwrap().action = String::from("login");
    msg.auth.as_mut().unwrap().success = None;
    assert_eq!(classify_inbound(&msg), InboundKind::CredentialOther);

    msg.auth.as_mut().unwrap().action = String::from("logout");
    assert_eq!(classify_inbound(&msg), InboundKind::Other);

    msg.auth = None;
    assert_eq!(classify_inbound(&msg), InboundKind::Chat);
}

#[test]
fn encrypt_with_key_needs_cleartext() {
    let key = vec![1u8; 32];
    let mut msg = chat("a", "b", "x", "m");
    msg.content.as_mut().unwrap().cleartext = None;
    assert!(matches!(encrypt_with_key(msg, &key), Err(Error::Custom(_))));
    let mut msg2 = chat("a", "b", "x", "m");
    msg2.content = None;
    assert!(matches!(encrypt_with_key(msg2, &key), Err(Error::Custom(_))));
}
