//! Client-side session layer and handshake orchestration: the per-user
//! session-secret store, AES-256-GCM encryption and decryption of chat
//! payloads, and the state machine that queues outbound plaintext until a
//! session secret exists for its recipient and flushes it in order once
//! one does.

use vstd::prelude::*;

verus! {

broadcast use vstd::utf8::encode_utf8_valid_utf8, vstd::utf8::encode_utf8_decode_utf8, vstd::utf8::decode_utf8_encode_utf8;

use vstd::string::{StringExecFns, StrSliceExecFns};
use vstd::utf8::encode_utf8;
use crate::codec::{
    b64_decodable, b64_decode, b64_decode_val, b64_encode, b64_of, b64_val, copy_bytes, str_eq,
};
use crate::prims::{aead_ct_of, aead_decrypt, aead_encrypt, aead_pt_max, is_secret_key, random_nonce};
use crate::util::{Error, KeyBundle, MsgContent, MsgPayload, OpAuthPayload, PayloadView};
use crate::x3dh::{alice_ok, alice_x3dh, bob_ok, bob_secret, bob_x3dh, kp_secret};
use crate::xxxdh::x3dh_secret;

/// Per-user store of session secrets, keyed by peer identifier. The
/// embedding host persists its entries and rebuilds it on startup.
pub struct SecretStore {
    entries: Vec<(String, Vec<u8>)>,
}

impl SecretStore {
    /// Peer identifiers are pairwise distinct.
    #[verifier::type_invariant]
    spec fn inv(self) -> bool {
        forall|i: int, j: int|
            #![trigger self.entries@[i], self.entries@[j]]
            0 <= i < j < self.entries@.len() ==> self.entries@[i].0@ != self.entries@[j].0@
    }

    /// Whether a secret is stored for the peer.
    pub closed spec fn contains_key(&self, k: Seq<char>) -> bool {
        exists|i: int| 0 <= i < self.entries@.len() && (#[trigger] self.entries@[i]).0@ == k
    }

    /// The secret stored for the peer.
    pub closed spec fn val_of(&self, k: Seq<char>) -> Seq<u8> {
        let i = choose|i: int|
            0 <= i < self.entries@.len() && (#[trigger] self.entries@[i]).0@ == k;
        self.entries@[i].1@
    }

    /// With distinct keys, the entry at an index is the one its key maps
    /// to.
    proof fn lemma_val_pinned(&self, j: int)
        requires
            self.inv(),
            0 <= j < self.entries@.len(),
        ensures
            self.contains_key(self.entries@[j].0@),
            self.val_of(self.entries@[j].0@) == self.entries@[j].1@,
    {
        let k = self.entries@[j].0@;
        assert(self.contains_key(k));
        let c = choose|i: int|
            0 <= i < self.entries@.len() && (#[trigger] self.entries@[i]).0@ == k;
        if c != j {
            assert(self.entries@[c].0@ != self.entries@[j].0@);
        }
    }

    /// An empty store.
    pub fn new() -> (r: SecretStore)
        ensures
            forall|k: Seq<char>| !(#[trigger] r.contains_key(k)),
    {
        SecretStore { entries: Vec::new() }
    }

    /// Whether a secret is stored for the peer.
    pub fn has(&self, peer: &String) -> (r: bool)
        ensures
            r == self.contains_key(peer@),
    {
        let n = self.entries.len();
        let mut i: usize = 0;
        let mut found: bool = false;
        while !found && i < n
            invariant
                n == self.entries@.len(),
                i <= n,
                forall|j: int| 0 <= j < i ==> (#[trigger] self.entries@[j]).0@ != peer@,
                found ==> i < n && self.entries@[i as int].0@ == peer@,
            decreases
                    n - i + (if found {
                        0int
                    } else {
                        1int
                    }),
        {
            if self.entries[i].0 == *peer {
                found = true;
            } else {
                i = i + 1;
            }
        }
        found
    }

    /// The secret stored for the peer, if any.
    pub fn get(&self, peer: &String) -> (r: Option<Vec<u8>>)
        ensures
            r is Some <==> self.contains_key(peer@),
            r is Some ==> r->Some_0@ == self.val_of(peer@),
    {
        proof {
            use_type_invariant(&*self);
        }
        let n = self.entries.len();
        let mut i: usize = 0;
        let mut found: bool = false;
        while !found && i < n
            invariant
                n == self.entries@.len(),
                i <= n,
                forall|j: int| 0 <= j < i ==> (#[trigger] self.entries@[j]).0@ != peer@,
                found ==> i < n && self.entries@[i as int].0@ == peer@,
            decreases
                    n - i + (if found {
                        0int
                    } else {
                        1int
                    }),
        {
            if self.entries[i].0 == *peer {
                found = true;
            } else {
                i = i + 1;
            }
        }
        if found {
            proof {
                self.lemma_val_pinned(i as int);
            }
            Some(copy_bytes(self.entries[i].1.as_slice()))
        } else {
            None
        }
    }

    /// Store a secret for the peer, replacing any previous one. Secrets
    /// stored for other peers are untouched.
    pub fn put(&mut self, peer: String, secret: Vec<u8>)
        ensures
            final(self).contains_key(peer@),
            final(self).val_of(peer@) == secret@,
            forall|k: Seq<char>|
                k != peer@ ==> (#[trigger] final(self).contains_key(k)) == old(self).contains_key(k),
            forall|k: Seq<char>|
                k != peer@ && old(self).contains_key(k) ==> (#[trigger] final(self).val_of(k))
                    == old(self).val_of(k),
    {
        proof {
            use_type_invariant(&*self);
        }
        let mut entries: Vec<(String, Vec<u8>)> = Vec::new();
        std::mem::swap(&mut entries, &mut self.entries);
        let ghost olds = entries@;
        let n = entries.len();
        let mut i: usize = 0;
        let mut found: bool = false;
        while !found && i < n
            invariant
                n == entries@.len(),
                i <= n,
                forall|j: int| 0 <= j < i ==> (#[trigger] entries@[j]).0@ != peer@,
                found ==> i < n && entries@[i as int].0@ == peer@,
            decreases
                    n - i + (if found {
                        0int
                    } else {
                        1int
                    }),
        {
            if entries[i].0 == peer {
                found = true;
            } else {
                i = i + 1;
            }
        }
        if found {
            let _removed = entries.remove(i);
            proof {
                assert(entries@ =~= olds.remove(i as int));
                assert forall|j: int| 0 <= j < entries@.len() implies (#[trigger] entries@[j]).0@
                    != peer@ by {
                    if j < i as int {
                        assert(entries@[j] == olds[j]);
                    } else {
                        assert(entries@[j] == olds[j + 1]);
                        assert(olds[i as int].0@ != olds[j + 1].0@);
                    }
                }
            }
        }
        let ghost kept = entries@;
        entries.push((peer, secret));
        self.entries = entries;
        proof {
            assert(forall|j: int|
                0 <= j < kept.len() ==> (#[trigger] kept[j]).0@ != peer@);
            assert(self.inv()) by {
                assert forall|a: int, b: int|
                    #![trigger self.entries@[a], self.entries@[b]]
                    0 <= a < b < self.entries@.len() implies self.entries@[a].0@
                    != self.entries@[b].0@ by {
                    if b == self.entries@.len() - 1 {
                        assert(self.entries@[a] == kept[a]);
                    } else {
                        if found {
                            if a < i as int && b < i as int {
                                assert(kept[a] == olds[a] && kept[b] == olds[b]);
                            } else if a < i as int {
                                assert(kept[a] == olds[a] && kept[b] == olds[b + 1]);
                            } else {
                                assert(kept[a] == olds[a + 1] && kept[b] == olds[b + 1]);
                            }
                        }
                    }
                }
            }
            let ns = self.entries@;
            self.lemma_val_pinned(ns.len() - 1);
            assert(final(self).contains_key(peer@) && final(self).val_of(peer@) == secret@);
            assert forall|k: Seq<char>| k != peer@ implies (#[trigger] final(self).contains_key(
                k,
            )) == old(self).contains_key(k) by {
                if final(self).contains_key(k) {
                    let w = choose|w: int| 0 <= w < ns.len() && (#[trigger] ns[w]).0@ == k;
                    assert(w < ns.len() - 1);
                    assert(kept[w].0@ == k);
                    if found {
                        if w < i as int {
                            assert(olds[w].0@ == k);
                        } else {
                            assert(olds[w + 1].0@ == k);
                        }
                    } else {
                        assert(olds[w].0@ == k);
                    }
                    assert(old(self).contains_key(k));
                }
                if old(self).contains_key(k) {
                    let w = choose|w: int| 0 <= w < olds.len() && (#[trigger] olds[w]).0@ == k;
                    if found {
                        if w < i as int {
                            assert(kept[w].0@ == k);
                            assert(ns[w].0@ == k);
                        } else {
                            assert(w != i as int);
                            assert(kept[w - 1] == olds[w]);
                            assert(ns[w - 1].0@ == k);
                        }
                    } else {
                        assert(ns[w].0@ == k);
                    }
                    assert(final(self).contains_key(k));
                }
            }
            assert forall|k: Seq<char>|
                k != peer@ && old(self).contains_key(k) implies (#[trigger] final(self).val_of(
                k,
            )) == old(self).val_of(k) by {
                let w = choose|w: int| 0 <= w < olds.len() && (#[trigger] olds[w]).0@ == k;
                old(self).lemma_val_pinned(w);
                if found {
                    if w < i as int {
                        assert(ns[w] == olds[w]);
                        final(self).lemma_val_pinned(w);
                    } else {
                        assert(w != i as int);
                        assert(ns[w - 1] == olds[w]);
                        final(self).lemma_val_pinned(w - 1);
                    }
                } else {
                    assert(ns[w] == olds[w]);
                    final(self).lemma_val_pinned(w);
                }
            }
        }
    }
}

/// A payload the session cipher accepts under a key: it carries content
/// with a cleartext whose UTF-8 form fits the cipher's limit, and the key
/// is 32 bytes.
pub open spec fn msg_encryptable(m: PayloadView, key: Seq<u8>) -> bool {
    &&& m.content is Some
    &&& m.content->Some_0.cleartext is Some
    &&& encode_utf8(m.content->Some_0.cleartext->Some_0).len() <= aead_pt_max()
    &&& key.len() == 32
}

/// `out` is `m` with its cleartext replaced by its encryption under the
/// key and nonce, Base64-encoded, and every other field kept.
pub open spec fn is_encryption_of(out: PayloadView, m: PayloadView, key: Seq<u8>, n: Seq<u8>) -> bool {
    &&& out.content is Some
    &&& out.content->Some_0.ciphertext == b64_of(
        aead_ct_of(key, n, encode_utf8(m.content->Some_0.cleartext->Some_0)),
    )
    &&& out.content->Some_0.nonce == b64_of(n)
    &&& out.content->Some_0.cleartext is None
    &&& out.timestamp == m.timestamp
    &&& out.auth == m.auth
    &&& out.message_id == m.message_id
    &&& out.author == m.author
    &&& out.recipient == m.recipient
}

/// `out` is `m` encrypted under the key with some fresh 12-byte nonce.
pub open spec fn some_encryption_of(out: PayloadView, m: PayloadView, key: Seq<u8>) -> bool {
    exists|n: Seq<u8>| n.len() == 12 && #[trigger] is_encryption_of(out, m, key, n)
}

/// Encrypt a payload's cleartext in place under a raw 32-byte session
/// secret with a fresh random nonce.
pub fn encrypt_with_key(msg: MsgPayload, key: &Vec<u8>) -> (r: Result<MsgPayload, Error>)
    ensures
        r is Ok <==> msg_encryptable(msg@, key@),
        r is Ok ==> some_encryption_of(r->Ok_0@, msg@, key@),
        r is Err ==> (r->Err_0 is Custom || r->Err_0 == Error::Aead),
{
    let ghost m0 = msg@;
    if key.len() != 32 {
        return Err(Error::Aead);
    }
    let clear_bytes = match &msg.content {
        Some(c) => match &c.cleartext {
            Some(t) => t.as_str().as_bytes_vec(),
            None => return Err(Error::Custom(String::from_str("missing cleartext"))),
        },
        None => return Err(Error::Custom(String::from_str("missing content"))),
    };
    let nonce = random_nonce();
    let ciphertext = match aead_encrypt(key.as_slice(), nonce.as_slice(), clear_bytes.as_slice()) {
        Ok(c) => c,
        Err(_) => return Err(Error::Aead),
    };
    let out = MsgPayload {
        content: Some(
            MsgContent {
                ciphertext: b64_encode(ciphertext.as_slice()),
                nonce: b64_encode(nonce.as_slice()),
                cleartext: None,
            },
        ),
        timestamp: msg.timestamp,
        auth: msg.auth,
        message_id: msg.message_id,
        author: msg.author,
        recipient: msg.recipient,
    };
    proof {
        assert(is_encryption_of(out@, m0, key@, nonce@));
        assert(some_encryption_of(out@, m0, key@));
    }
    Ok(out)
}

/// Encrypt a payload's cleartext under a Base64-encoded session secret,
/// as stored at rest.
pub fn encrypt_msg(msg: MsgPayload, sk: &str) -> (r: Result<MsgPayload, Error>)
    ensures
        r is Ok <==> (b64_decodable(sk@) && msg_encryptable(msg@, b64_val(sk@))),
        r is Ok ==> some_encryption_of(r->Ok_0@, msg@, b64_val(sk@)),
        r is Err ==> (r->Err_0 is Custom || r->Err_0 == Error::Aead || r->Err_0 == Error::Decode),
{
    let key = match b64_decode_val(sk) {
        Ok(v) => v,
        Err(e) => return Err(e),
    };
    encrypt_with_key(msg, &key)
}

/// Decrypt a payload's ciphertext under a raw session secret, filling in
/// its cleartext and keeping every other field. On any payload that
/// `encrypt_with_key` produced under the same key, the original cleartext
/// comes back.
pub fn decrypt_msg(msg: MsgPayload, key: &Vec<u8>) -> (r: Result<MsgPayload, Error>)
    ensures
        forall|n: Seq<u8>, clear: Seq<char>|
            #![trigger aead_ct_of(key@, n, encode_utf8(clear))]
            msg@.content is Some && n.len() == 12 && key@.len() == 32
                && msg@.content->Some_0.ciphertext == b64_of(
                aead_ct_of(key@, n, encode_utf8(clear)),
            ) && msg@.content->Some_0.nonce == b64_of(n) && encode_utf8(clear).len()
                <= aead_pt_max() ==> r is Ok && r->Ok_0@.content is Some
                && r->Ok_0@.content->Some_0.cleartext == Some(clear),
        r is Ok ==> ({
            let out = r->Ok_0@;
            let m = msg@;
            &&& m.content is Some
            &&& out.content is Some
            &&& out.content->Some_0.ciphertext == m.content->Some_0.ciphertext
            &&& out.content->Some_0.nonce == m.content->Some_0.nonce
            &&& out.content->Some_0.cleartext is Some
            &&& out.timestamp == m.timestamp
            &&& out.auth == m.auth
            &&& out.message_id == m.message_id
            &&& out.author == m.author
            &&& out.recipient == m.recipient
            &&& exists|n: Seq<u8>|
                #![trigger b64_of(n)]
                n.len() == 12 && m.content->Some_0.nonce == b64_of(n)
                    && m.content->Some_0.ciphertext == b64_of(
                    aead_ct_of(key@, n, encode_utf8(out.content->Some_0.cleartext->Some_0)),
                )
        }),
{
    if key.len() != 32 {
        return Err(Error::Aead);
    }
    let content = match msg.content {
        Some(c) => c,
        None => return Err(Error::Custom(String::from_str("missing content"))),
    };
    let nonce = match b64_decode(content.nonce.as_str()) {
        Ok(v) => v,
        Err(e) => return Err(e),
    };
    if nonce.len() != 12 {
        return Err(Error::Aead);
    }
    let ciphertext = match b64_decode(content.ciphertext.as_str()) {
        Ok(v) => v,
        Err(e) => return Err(e),
    };
    let plaintext_bytes = match aead_decrypt(key.as_slice(), nonce.as_slice(), ciphertext.as_slice()) {
        Ok(v) => v,
        Err(_) => return Err(Error::Aead),
    };
    let cleartext = match crate::codec::bytes_to_string(plaintext_bytes) {
        Ok(s) => s,
        Err(e) => return Err(e),
    };
    let out = MsgPayload {
        content: Some(
            MsgContent {
                ciphertext: content.ciphertext,
                nonce: content.nonce,
                cleartext: Some(cleartext),
            },
        ),
        timestamp: msg.timestamp,
        auth: msg.auth,
        message_id: msg.message_id,
        author: msg.author,
        recipient: msg.recipient,
    };
    Ok(out)
}

/// Filtering a sequence extended by one element keeps the element exactly
/// when the predicate holds of it.
proof fn lemma_filter_push<A>(s: Seq<A>, x: A, pred: spec_fn(A) -> bool)
    ensures
        s.push(x).filter(pred) == (if pred(x) {
            s.filter(pred).push(x)
        } else {
            s.filter(pred)
        }),
{
    reveal(Seq::filter);
    assert(s.push(x).drop_last() =~= s);
    assert(s.push(x).last() == x);
}

/// The state one client holds per local user: the session secrets agreed
/// so far and the messages queued while no secret exists for their
/// recipient.
pub struct ClientState {
    pub secrets: SecretStore,
    pub queue: Vec<MsgPayload>,
}

impl ClientState {
    /// A fresh state: no secrets, nothing queued.
    pub fn new() -> (r: ClientState)
        ensures
            forall|k: Seq<char>| !(#[trigger] r.secrets.contains_key(k)),
            r.queue@ == Seq::<MsgPayload>::empty(),
    {
        ClientState { secrets: SecretStore::new(), queue: Vec::new() }
    }
}

/// What a send resolves to: a chat frame ready to transmit, or a bundle
/// request to transmit while the message waits in the queue.
pub enum SendAction {
    Send(MsgPayload),
    Fetch(MsgPayload),
}

/// `p` is a `fetch_bundle` request for the given user's bundle.
pub open spec fn is_fetch_bundle_payload(p: PayloadView, user: Seq<char>) -> bool {
    &&& p.auth is Some
    &&& p.auth->Some_0.action == "fetch_bundle"@
    &&& p.auth->Some_0.user == user
    &&& p.auth->Some_0.keybundle is None
    &&& p.auth->Some_0.success is None
    &&& p.content is None
}

/// Build the control frame that asks the server for a user's bundle.
pub fn fetch_bundle_payload(user: String) -> (r: MsgPayload)
    ensures
        is_fetch_bundle_payload(r@, user@),
        r@.timestamp == 0,
{
    MsgPayload {
        content: None,
        timestamp: 0,
        auth: Some(
            OpAuthPayload {
                action: String::from_str("fetch_bundle"),
                user,
                password: String::new(),
                keybundle: None,
                message: String::new(),
                success: None,
            },
        ),
        message_id: String::new(),
        author: String::from_str("me"),
        recipient: String::new(),
    }
}

/// Attach a key bundle to a registration envelope's auth operation.
pub fn register_payload(auth: MsgPayload, keybundle: KeyBundle) -> (r: MsgPayload)
    ensures
        auth@.auth is None ==> r@ == auth@,
        auth@.auth is Some ==> ({
            let a0 = auth@.auth->Some_0;
            let a1 = r@.auth->Some_0;
            &&& r@.auth is Some
            &&& a1.keybundle == Some(keybundle@)
            &&& a1.action == a0.action
            &&& a1.user == a0.user
            &&& a1.password == a0.password
            &&& a1.message == a0.message
            &&& a1.success == a0.success
            &&& r@.content == auth@.content
            &&& r@.timestamp == auth@.timestamp
            &&& r@.message_id == auth@.message_id
            &&& r@.author == auth@.author
            &&& r@.recipient == auth@.recipient
        }),
{
    let mut out = auth;
    match &mut out.auth {
        Some(a) => {
            a.keybundle = Some(keybundle);
        },
        None => (),
    };
    out
}

/// Resolve an outbound message: when a session secret for its recipient
/// is stored, encrypt the message under it; otherwise queue the message
/// and build a `fetch_bundle` request for the recipient.
pub fn send_msg(state: &mut ClientState, msg: MsgPayload) -> (r: Result<SendAction, Error>)
    ensures
        old(state).secrets.contains_key(msg@.recipient) ==> ({
            &&& *final(state) == *old(state)
            &&& (r is Ok <==> msg_encryptable(msg@, old(state).secrets.val_of(msg@.recipient)))
            &&& (r is Ok ==> (r->Ok_0 matches SendAction::Send(f) && some_encryption_of(
                f@,
                msg@,
                old(state).secrets.val_of(msg@.recipient),
            )))
        }),
        !old(state).secrets.contains_key(msg@.recipient) ==> ({
            &&& r is Ok
            &&& final(state).queue@ == old(state).queue@.push(msg)
            &&& final(state).secrets == old(state).secrets
            &&& (r is Ok && (r->Ok_0 matches SendAction::Fetch(f) && is_fetch_bundle_payload(
                f@,
                msg@.recipient,
            )))
        }),
{
    if state.secrets.has(&msg.recipient) {
        let key = match state.secrets.get(&msg.recipient) {
            Some(k) => k,
            None => vstd::pervasive::unreached(),
        };
        match encrypt_with_key(msg, &key) {
            Ok(f) => Ok(SendAction::Send(f)),
            Err(e) => Err(e),
        }
    } else {
        let user = msg.recipient.clone();
        state.queue.push(msg);
        Ok(SendAction::Fetch(fetch_bundle_payload(user)))
    }
}

/// The queued messages that stay queued once a secret for `peer` exists:
/// those addressed to other peers.
pub open spec fn queue_kept(q: Seq<MsgPayload>, peer: Seq<char>) -> Seq<MsgPayload> {
    q.filter(|m: MsgPayload| m@.recipient != peer)
}

/// The queued messages flushed once a secret for `peer` exists: those
/// addressed to it that the session cipher accepts, in queue order.
pub open spec fn queue_flushable(q: Seq<MsgPayload>, peer: Seq<char>, key: Seq<u8>) -> Seq<
    MsgPayload,
> {
    q.filter(|m: MsgPayload| m@.recipient == peer && msg_encryptable(m@, key))
}

/// Handle the server's answer to a `fetch_bundle` request: run the
/// initiator half of the handshake against the delivered bundle, store
/// the derived secret under the peer, and flush the queue for that peer
/// in first-in-first-out order. Returns the handshake frame and the
/// encrypted chat frames to transmit, in order; queued messages for the
/// peer that the cipher refuses are dropped.
pub fn handle_bundle_response(
    state: &mut ClientState,
    own_bundle: &KeyBundle,
    msg: MsgPayload,
) -> (r: Result<(MsgPayload, Vec<MsgPayload>), Error>)
    ensures
        r is Ok <==> alice_ok(own_bundle@, msg@),
        r is Err ==> *final(state) == *old(state),
        r is Ok ==> ({
            let peer = msg@.auth->Some_0.user;
            let rb = msg@.auth->Some_0.keybundle->Some_0;
            let key = final(state).secrets.val_of(peer);
            &&& final(state).secrets.contains_key(peer)
            &&& key.len() == 32
            &&& exists|e: Seq<u8>|
                #![trigger is_secret_key(e)]
                is_secret_key(e) && key == x3dh_secret(
                    kp_secret(own_bundle@.identity),
                    e,
                    b64_val(rb.identity.public),
                    b64_val(rb.prekey.public),
                    b64_val(rb.onetime_keys[0].public),
                )
            &&& forall|k: Seq<char>|
                k != peer ==> (#[trigger] final(state).secrets.contains_key(k)) == old(state).secrets.contains_key(k)
            &&& forall|k: Seq<char>|
                k != peer && old(state).secrets.contains_key(k) ==> (#[trigger] final(state).secrets.val_of(k)) == old(state).secrets.val_of(k)
            &&& r->Ok_0.0@.auth is Some
            &&& r->Ok_0.0@.auth->Some_0.action == "x3dh"@
            &&& r->Ok_0.0@.recipient == peer
            &&& r->Ok_0.0@.author == msg@.recipient
            &&& final(state).queue@ == queue_kept(old(state).queue@, peer)
            &&& ({
                let fl = queue_flushable(old(state).queue@, peer, key);
                &&& r->Ok_0.1@.len() == fl.len()
                &&& forall|i: int|
                    0 <= i < fl.len() ==> some_encryption_of(
                        (#[trigger] r->Ok_0.1@[i])@,
                        fl[i]@,
                        key,
                    )
            })
        }),
{
    let t = match alice_x3dh(own_bundle, &msg) {
        Ok(t) => t,
        Err(e) => return Err(e),
    };
    let (handshake, peer, sk) = t;
    state.secrets.put(peer.clone(), copy_bytes(sk.as_slice()));
    let ghost pv = peer@;
    let ghost key = sk@;
    let mut pending: Vec<MsgPayload> = Vec::new();
    std::mem::swap(&mut pending, &mut state.queue);
    let ghost oldq = pending@;
    let mut kept: Vec<MsgPayload> = Vec::new();
    let mut frames: Vec<MsgPayload> = Vec::new();
    proof {
        assert(oldq.take(0) =~= Seq::<MsgPayload>::empty());
        reveal(Seq::filter);
    }
    while pending.len() > 0
        invariant
            sk@ == key,
            peer@ == pv,
            pending@.len() <= oldq.len(),
            pending@ =~= oldq.skip(oldq.len() - pending@.len()),
            kept@ == queue_kept(oldq.take(oldq.len() - pending@.len()), pv),
            frames@.len() == queue_flushable(oldq.take(oldq.len() - pending@.len()), pv, key).len(),
            forall|i: int|
                0 <= i < frames@.len() ==> some_encryption_of(
                    (#[trigger] frames@[i])@,
                    queue_flushable(oldq.take(oldq.len() - pending@.len()), pv, key)[i]@,
                    key,
                ),
        decreases pending@.len(),
    {
        let ghost k0 = oldq.len() - pending@.len();
        let ghost prev = pending@;
        let m = pending.remove(0);
        proof {
            assert(prev == oldq.skip(k0));
            assert(m == prev[0]);
            assert(m == oldq[k0]);
            assert forall|t: int| 0 <= t < pending@.len() implies pending@[t] == oldq.skip(
                k0 + 1,
            )[t] by {
                assert(pending@[t] == prev[t + 1]);
                assert(prev[t + 1] == oldq[k0 + 1 + t]);
            }
            assert(pending@ =~= oldq.skip(k0 + 1));
            assert(oldq.take(k0 + 1) =~= oldq.take(k0).push(m));
            lemma_filter_push(oldq.take(k0), m, |q: MsgPayload| q@.recipient != pv);
            lemma_filter_push(
                oldq.take(k0),
                m,
                |q: MsgPayload| q@.recipient == pv && msg_encryptable(q@, key),
            );
        }
        if m.recipient == peer {
            match encrypt_with_key(m, &sk) {
                Ok(f) => {
                    frames.push(f);
                },
                Err(_) => (),
            }
        } else {
            kept.push(m);
        }
    }
    proof {
        assert(oldq.take(oldq.len() as int) =~= oldq);
    }
    state.queue = kept;
    Ok((handshake, frames))
}

/// Handle an inbound handshake: run the responder half against the
/// initiator's message and store the derived secret under the message's
/// author. Returns that author. The queue is untouched.
pub fn handle_x3dh(state: &mut ClientState, own_bundle: &KeyBundle, msg: MsgPayload) -> (r: Result<
    String,
    Error,
>)
    ensures
        r is Ok <==> bob_ok(own_bundle@, msg@),
        r is Err ==> *final(state) == *old(state),
        final(state).queue@ == old(state).queue@,
        r is Ok ==> ({
            let peer = msg@.author;
            &&& r->Ok_0@ == peer
            &&& final(state).secrets.contains_key(peer)
            &&& final(state).secrets.val_of(peer) == bob_secret(own_bundle@, msg@)
            &&& forall|k: Seq<char>|
                k != peer ==> (#[trigger] final(state).secrets.contains_key(k)) == old(state).secrets.contains_key(k)
            &&& forall|k: Seq<char>|
                k != peer && old(state).secrets.contains_key(k) ==> (#[trigger] final(state).secrets.val_of(k)) == old(state).secrets.val_of(k)
        }),
{
    let (author, sk) = match bob_x3dh(own_bundle, &msg) {
        Ok(t) => t,
        Err(e) => return Err(e),
    };
    let peer = author.clone();
    state.secrets.put(author, sk);
    Ok(peer)
}

/// Handle an inbound chat message: decrypt it under the secret stored for
/// its author and return it with the cleartext filled in. Without a
/// stored secret the message is refused, not decrypted.
pub fn handle_chat(state: &ClientState, msg: MsgPayload) -> (r: Result<MsgPayload, Error>)
    ensures
        !state.secrets.contains_key(msg@.author) ==> r == Err::<MsgPayload, Error>(
            Error::NoSession,
        ),
        state.secrets.contains_key(msg@.author) ==> ({
            let key = state.secrets.val_of(msg@.author);
            &&& forall|n: Seq<u8>, clear: Seq<char>|
                #![trigger aead_ct_of(key, n, encode_utf8(clear))]
                msg@.content is Some && n.len() == 12 && key.len() == 32
                    && msg@.content->Some_0.ciphertext == b64_of(
                    aead_ct_of(key, n, encode_utf8(clear)),
                ) && msg@.content->Some_0.nonce == b64_of(n) && encode_utf8(clear).len()
                    <= aead_pt_max() ==> r is Ok && r->Ok_0@.content is Some
                    && r->Ok_0@.content->Some_0.cleartext == Some(clear)
            &&& r is Ok ==> ({
                let out = r->Ok_0@;
                &&& out.content is Some
                &&& out.content->Some_0.cleartext is Some
                &&& out.author == msg@.author
                &&& out.recipient == msg@.recipient
                &&& exists|n: Seq<u8>|
                    #![trigger b64_of(n)]
                    n.len() == 12 && msg@.content->Some_0.nonce == b64_of(n)
                        && msg@.content->Some_0.ciphertext == b64_of(
                        aead_ct_of(key, n, encode_utf8(out.content->Some_0.cleartext->Some_0)),
                    )
            })
        }),
{
    let key = match state.secrets.get(&msg.author) {
        Some(k) => k,
        None => return Err(Error::NoSession),
    };
    decrypt_msg(msg, &key)
}

/// What an inbound envelope asks of the client.
#[derive(Debug, Clone, Copy, PartialEq, Eq, Structural)]
pub enum InboundKind {
    /// A register or login answer with success set: surface the
    /// credential token.
    CredentialAccepted,
    /// A register or login answer without success: ignore it.
    CredentialOther,
    /// The answer to a `fetch_bundle` request: run the initiator half.
    BundleResponse,
    /// An initiator's handshake: run the responder half.
    Handshake,
    /// A data-plane message: decrypt it.
    Chat,
    /// Any other control message: ignore it.
    Other,
}

/// Classify an inbound envelope by its control action, as the receive
/// loop dispatches it.
pub fn classify_inbound(msg: &MsgPayload) -> (r: InboundKind)
    ensures
        msg@.auth is None ==> r == InboundKind::Chat,
        msg@.auth is Some ==> ({
            let a = msg@.auth->Some_0;
            &&& ((a.action == "register"@ || a.action == "login"@) && a.success == Some(true)
                ==> r == InboundKind::CredentialAccepted)
            &&& ((a.action == "register"@ || a.action == "login"@) && a.success != Some(true)
                ==> r == InboundKind::CredentialOther)
            &&& (a.action == "fetch_bundle"@ ==> r == InboundKind::BundleResponse)
            &&& (a.action == "x3dh"@ ==> r == InboundKind::Handshake)
            &&& (a.action != "register"@ && a.action != "login"@ && a.action != "fetch_bundle"@
                && a.action != "x3dh"@ ==> r == InboundKind::Other)
        }),
{
    proof {
        reveal_strlit("register");
        reveal_strlit("login");
        reveal_strlit("fetch_bundle");
        reveal_strlit("x3dh");
        assert("register"@.len() == 8);
        assert("login"@.len() == 5);
        assert("fetch_bundle"@.len() == 12);
        assert("x3dh"@.len() == 4);
        assert("register"@ != "x3dh"@ && "register"@ != "fetch_bundle"@);
        assert("login"@ != "x3dh"@ && "login"@ != "fetch_bundle"@);
        assert("fetch_bundle"@ != "x3dh"@);
    }
    let a = match &msg.auth {
        Some(a) => a,
        None => return InboundKind::Chat,
    };
    if str_eq(a.action.as_str(), "register") || str_eq(a.action.as_str(), "login") {
        match a.success {
            Some(true) => InboundKind::CredentialAccepted,
            _ => InboundKind::CredentialOther,
        }
    } else if str_eq(a.action.as_str(), "fetch_bundle") {
        InboundKind::BundleResponse
    } else if str_eq(a.action.as_str(), "x3dh") {
        InboundKind::Handshake
    } else {
        InboundKind::Other
    }
}

} // verus!
