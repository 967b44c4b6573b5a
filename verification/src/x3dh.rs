//! Bundle generation and the two halves of the handshake over wire-form
//! bundles: the initiator runs `alice_x3dh` against a fetched bundle and
//! the responder runs `bob_x3dh` against an inbound handshake message.

use vstd::prelude::*;

verus! {

use vstd::pervasive::unreached;
use vstd::string::StringExecFns;
use crate::codec::{b64_decodable, b64_decode_val, b64_encode, b64_of, b64_val, copy_bytes};
use crate::prims::{
    aead_ct_of, aead_decryptable, check_public_key, check_secret_key, check_signature_bytes,
    derive_public, is_public_key, is_secret_key, is_signature, public_of, sig_verifies, sign_bytes,
};
use crate::util::{
    BundleView, Error, KeyBundle, KeyPairB64, KeyPairView, MsgContent, MsgPayload, OpAuthPayload,
    PayloadView,
};
use crate::xxxdh::{
    prekey_signature_ok, respond_secret, x3dh_secret, KeyPair, Protocol, XxxDhError,
};

/// How many one-time prekeys a fresh bundle carries.
pub const ONETIME_KEY_COUNT: usize = 100;

/// The private half is present, decodes, and holds a well-formed secret
/// key.
pub open spec fn kp_decodes(k: KeyPairView) -> bool {
    k.private matches Some(p) && b64_decodable(p) && is_secret_key(b64_val(p))
}

/// The secret-key bytes a locally owned wire key pair holds.
pub open spec fn kp_secret(k: KeyPairView) -> Seq<u8> {
    b64_val(k.private->Some_0)
}

/// A locally owned key pair in wire form: the private half is present,
/// decodes to a well-formed secret key, and the public half encodes the
/// public key derived from it.
pub open spec fn kp_wf_full(k: KeyPairView) -> bool {
    &&& kp_decodes(k)
    &&& k.public == b64_of(public_of(kp_secret(k)))
    &&& b64_val(k.public) == public_of(kp_secret(k))
}

/// The bundle carries a valid signature: identity key, prekey and
/// signature decode, and the signature over the raw prekey bytes verifies
/// under the identity key.
pub open spec fn bundle_signed(b: BundleView) -> bool {
    exists|ik: Seq<u8>, spk: Seq<u8>, sg: Seq<u8>|
        {
            &&& b.identity.public == b64_of(ik)
            &&& b.prekey.public == b64_of(spk)
            &&& b.signature.public == b64_of(sg)
            &&& is_public_key(ik)
            &&& is_signature(sg)
            &&& #[trigger] sig_verifies(ik, spk, sg)
        }
}

/// The library error kind each protocol error surfaces as.
pub open spec fn xxxdh_error_kind(e: XxxDhError) -> Error {
    match e {
        XxxDhError::EmptyPrekeyList => Error::EmptyPrekeyList,
        XxxDhError::UnknownPrekey => Error::UnknownPrekey,
        XxxDhError::BadPrekeySignature => Error::Signature,
        XxxDhError::KdfError => Error::Kdf,
        XxxDhError::KeypairError => Error::Decode,
        XxxDhError::AeadError => Error::Aead,
        XxxDhError::SignatureError => Error::Signature,
        XxxDhError::StorageError(_) => Error::Storage,
    }
}

/// Surface a protocol error as the library error kind it belongs to.
pub fn xxxdh_to_error(e: XxxDhError) -> (r: Error)
    ensures
        r == xxxdh_error_kind(e),
{
    match e {
        XxxDhError::EmptyPrekeyList => Error::EmptyPrekeyList,
        XxxDhError::UnknownPrekey => Error::UnknownPrekey,
        XxxDhError::BadPrekeySignature => Error::Signature,
        XxxDhError::KdfError => Error::Kdf,
        XxxDhError::KeypairError => Error::Decode,
        XxxDhError::AeadError => Error::Aead,
        XxxDhError::SignatureError => Error::Signature,
        XxxDhError::StorageError(_) => Error::Storage,
    }
}

/// Rebuild a raw key pair from its wire form. The private half must be
/// present and decode to a well-formed secret key; the public half is
/// rederived from the secret, so a corrupted stored public half cannot
/// produce a mismatched pair.
pub fn get_key_pair(key_pair: &KeyPairB64) -> (r: Result<KeyPair, Error>)
    ensures
        r is Ok <==> kp_decodes(key_pair@),
        r is Ok ==> ({
            &&& r->Ok_0.wf()
            &&& r->Ok_0.secret@ == kp_secret(key_pair@)
            &&& key_pair@.private == Some(b64_of(r->Ok_0.secret@))
            &&& r->Ok_0.public@ == public_of(kp_secret(key_pair@))
        }),
        r is Err ==> r->Err_0 == Error::Decode,
{
    let priv_str = match &key_pair.private {
        Some(p) => p,
        None => return Err(Error::Decode),
    };
    let secret = match b64_decode_val(priv_str.as_str()) {
        Ok(v) => v,
        Err(_) => return Err(Error::Decode),
    };
    if !check_secret_key(secret.as_slice()) {
        return Err(Error::Decode);
    }
    let public = match derive_public(secret.as_slice()) {
        Ok(p) => p,
        Err(_) => return Err(Error::Decode),
    };
    Ok(KeyPair { secret, public })
}

/// Generate the full key material for a fresh user: an identity pair, a
/// signed prekey pair whose public half is signed with the identity
/// secret, and a batch of one-time prekey pairs, all Base64-encoded with
/// their private halves retained. The caller persists this bundle and
/// publishes a stripped copy.
pub fn get_keybundle() -> (r: KeyBundle)
    ensures
        kp_wf_full(r@.identity),
        kp_wf_full(r@.prekey),
        r@.onetime_keys.len() == ONETIME_KEY_COUNT as int,
        forall|i: int|
            0 <= i < r@.onetime_keys.len() ==> kp_wf_full(#[trigger] r@.onetime_keys[i]),
        r@.ephemeral_key is None,
        r@.signature.private is None,
        bundle_signed(r@),
{
    let identity = KeyPair::generate();
    let prekey = KeyPair::generate();
    let signature = match sign_bytes(identity.secret.as_slice(), prekey.public.as_slice()) {
        Ok(v) => v,
        Err(_) => unreached(),
    };
    let mut ot_kp: Vec<KeyPairB64> = Vec::new();
    let mut i: usize = 0;
    while i < ONETIME_KEY_COUNT
        invariant
            i <= ONETIME_KEY_COUNT,
            ot_kp@.len() == i as int,
            forall|j: int| 0 <= j < i ==> kp_wf_full((#[trigger] ot_kp@[j])@),
        decreases ONETIME_KEY_COUNT - i,
    {
        let kp = KeyPair::generate();
        let wire = KeyPairB64 {
            public: b64_encode(kp.public.as_slice()),
            private: Some(b64_encode(kp.secret.as_slice())),
        };
        proof {
            assert(is_secret_key(kp.secret@));
            assert(kp_wf_full(wire@));
        }
        ot_kp.push(wire);
        i = i + 1;
    }
    let bundle = KeyBundle {
        identity: KeyPairB64 {
            public: b64_encode(identity.public.as_slice()),
            private: Some(b64_encode(identity.secret.as_slice())),
        },
        prekey: KeyPairB64 {
            public: b64_encode(prekey.public.as_slice()),
            private: Some(b64_encode(prekey.secret.as_slice())),
        },
        signature: KeyPairB64 { public: b64_encode(signature.as_slice()), private: None },
        onetime_keys: ot_kp,
        ephemeral_key: None,
    };
    proof {
        assert(is_secret_key(identity.secret@));
        assert(kp_wf_full(bundle@.identity));
        assert(is_secret_key(prekey.secret@));
        assert(kp_wf_full(bundle@.prekey));
        assert(sig_verifies(identity.public@, prekey.public@, signature@));
        assert(bundle_signed(bundle@));
    }
    bundle
}

/// The decodable parts of a fetched bundle: its three key fields and the
/// first one-time key are canonical Base64, and a one-time key exists.
pub open spec fn receiver_bundle_decodes(rb: BundleView) -> bool {
    &&& b64_decodable(rb.identity.public)
    &&& b64_decodable(rb.prekey.public)
    &&& b64_decodable(rb.signature.public)
    &&& rb.onetime_keys.len() > 0
    &&& b64_decodable(rb.onetime_keys[0].public)
}

/// The conditions under which the initiator accepts a fetched bundle: it
/// decodes, its prekey signature verifies under its identity key, and its
/// prekey and first one-time key are canonical points.
pub open spec fn receiver_bundle_ok(rb: BundleView) -> bool {
    &&& receiver_bundle_decodes(rb)
    &&& prekey_signature_ok(
        b64_val(rb.identity.public),
        b64_val(rb.prekey.public),
        b64_val(rb.signature.public),
    )
    &&& is_public_key(b64_val(rb.prekey.public))
    &&& is_public_key(b64_val(rb.onetime_keys[0].public))
}

/// The local bundle's key material decodes: identity and prekey pairs
/// with private halves, and a well-formed signature.
pub open spec fn own_bundle_ok(own: BundleView) -> bool {
    &&& kp_decodes(own.identity)
    &&& kp_decodes(own.prekey)
    &&& b64_decodable(own.signature.public)
    &&& is_signature(b64_val(own.signature.public))
}

/// The inputs on which the initiator half succeeds: the envelope carries
/// a bundle, the local key material decodes, and the fetched bundle is
/// accepted.
pub open spec fn alice_ok(own: BundleView, m: PayloadView) -> bool {
    &&& m.auth is Some
    &&& m.auth->Some_0.keybundle is Some
    &&& own_bundle_ok(own)
    &&& receiver_bundle_ok(m.auth->Some_0.keybundle->Some_0)
}

/// Run the initiator half of the handshake against a fetched bundle.
/// `msg` is the `fetch_bundle` response naming the peer in `auth.user`
/// and carrying the peer's stripped bundle; `own_bundle` is the local
/// user's stored bundle with its private halves. Returns the handshake
/// envelope to transmit, the peer to store the secret under, and the
/// derived session secret.
pub fn alice_x3dh(own_bundle: &KeyBundle, msg: &MsgPayload) -> (r: Result<
    (MsgPayload, String, Vec<u8>),
    Error,
>)
    ensures
        r is Ok <==> alice_ok(own_bundle@, msg@),
        !(msg@.auth is Some && msg@.auth->Some_0.keybundle is Some) ==> r is Err
            && r->Err_0 is Custom,
        r is Ok ==> ({
            let m = msg@;
            let a = m.auth->Some_0;
            let rb = a.keybundle->Some_0;
            let pl = r->Ok_0.0@;
            let sk = r->Ok_0.2@;
            &&& r->Ok_0.1@ == a.user
            &&& sk.len() == 32
            &&& pl.timestamp == 0
            &&& pl.author == m.recipient
            &&& pl.recipient == a.user
            &&& pl.message_id == Seq::<char>::empty()
            &&& pl.auth is Some
            &&& ({
                let ha = pl.auth->Some_0;
                &&& ha.action == "x3dh"@
                &&& ha.user == Seq::<char>::empty()
                &&& ha.success == Some(true)
                &&& ha.keybundle is Some
                &&& ({
                    let hb = ha.keybundle->Some_0;
                    &&& hb.identity.public == b64_of(public_of(kp_secret(own_bundle@.identity)))
                    &&& hb.identity.private is None
                    &&& hb.prekey.public == b64_of(public_of(kp_secret(own_bundle@.prekey)))
                    &&& hb.prekey.private is None
                    &&& hb.signature.public == own_bundle@.signature.public
                    &&& hb.signature.private is None
                    &&& hb.onetime_keys.len() == 1
                    &&& hb.onetime_keys[0].public == rb.onetime_keys[0].public
                    &&& hb.onetime_keys[0].private is None
                    &&& hb.ephemeral_key is Some
                    &&& hb.ephemeral_key->Some_0.private is None
                })
            })
            &&& pl.content is Some
            &&& b64_val(pl.auth->Some_0.keybundle->Some_0.identity.public) == public_of(
                kp_secret(own_bundle@.identity),
            )
            &&& b64_val(pl.auth->Some_0.keybundle->Some_0.onetime_keys[0].public) == b64_val(
                rb.onetime_keys[0].public,
            )
            &&& exists|e: Seq<u8>, n: Seq<u8>|
                #![trigger is_secret_key(e), b64_of(n)]
                {
                    &&& is_secret_key(e)
                    &&& n.len() == 12
                    &&& pl.auth->Some_0.keybundle->Some_0.ephemeral_key->Some_0.public == b64_of(
                        public_of(e),
                    )
                    &&& b64_val(pl.auth->Some_0.keybundle->Some_0.ephemeral_key->Some_0.public)
                        == public_of(e)
                    &&& sk == x3dh_secret(
                        kp_secret(own_bundle@.identity),
                        e,
                        b64_val(rb.identity.public),
                        b64_val(rb.prekey.public),
                        b64_val(rb.onetime_keys[0].public),
                    )
                    &&& pl.content->Some_0.nonce == b64_of(n)
                    &&& b64_val(pl.content->Some_0.nonce) == n
                    &&& pl.content->Some_0.ciphertext == b64_of(
                        aead_ct_of(
                            sk,
                            n,
                            public_of(kp_secret(own_bundle@.identity)) + b64_val(
                                rb.identity.public,
                            ),
                        ),
                    )
                    &&& b64_val(pl.content->Some_0.ciphertext) == aead_ct_of(
                        sk,
                        n,
                        public_of(kp_secret(own_bundle@.identity)) + b64_val(rb.identity.public),
                    )
                    &&& pl.content->Some_0.cleartext is None
                }
        }),
{
    let auth = match &msg.auth {
        Some(a) => a,
        None => return Err(Error::Custom(String::from_str("missing auth"))),
    };
    let rb = match &auth.keybundle {
        Some(b) => b,
        None => return Err(Error::Custom(String::from_str("missing key bundle"))),
    };
    let alice_identity = match get_key_pair(&own_bundle.identity) {
        Ok(k) => k,
        Err(e) => return Err(e),
    };
    let alice_prekey = match get_key_pair(&own_bundle.prekey) {
        Ok(k) => k,
        Err(e) => return Err(e),
    };
    let alice_sig = match b64_decode_val(own_bundle.signature.public.as_str()) {
        Ok(v) => v,
        Err(e) => return Err(e),
    };
    if !check_signature_bytes(alice_sig.as_slice()) {
        return Err(Error::Decode);
    }
    let bob_identity = match b64_decode_val(rb.identity.public.as_str()) {
        Ok(v) => v,
        Err(e) => return Err(e),
    };
    let bob_prekey = match b64_decode_val(rb.prekey.public.as_str()) {
        Ok(v) => v,
        Err(e) => return Err(e),
    };
    let bob_signature = match b64_decode_val(rb.signature.public.as_str()) {
        Ok(v) => v,
        Err(e) => return Err(e),
    };
    if rb.onetime_keys.len() == 0 {
        return Err(Error::EmptyPrekeyList);
    }
    let bob_otk = match b64_decode_val(rb.onetime_keys[0].public.as_str()) {
        Ok(v) => v,
        Err(e) => return Err(e),
    };
    let prekey_for_payload = alice_prekey.clone();
    let sig_for_payload = copy_bytes(alice_sig.as_slice());
    let mut protocol = Protocol::new(alice_identity, alice_prekey, alice_sig, None);
    let t = match protocol.prepare_init_msg(&bob_identity, &bob_prekey, &bob_signature, &bob_otk) {
        Ok(t) => t,
        Err(e) => return Err(xxxdh_to_error(e)),
    };
    let mut handshake_otks: Vec<KeyPairB64> = Vec::new();
    handshake_otks.push(KeyPairB64 { public: b64_encode(bob_otk.as_slice()), private: None });
    let generated_kb = KeyBundle {
        identity: KeyPairB64 { public: b64_encode(t.0.as_slice()), private: None },
        prekey: KeyPairB64 {
            public: b64_encode(prekey_for_payload.public.as_slice()),
            private: None,
        },
        signature: KeyPairB64 { public: b64_encode(sig_for_payload.as_slice()), private: None },
        onetime_keys: handshake_otks,
        ephemeral_key: Some(KeyPairB64 { public: b64_encode(t.1.as_slice()), private: None }),
    };
    let payload = MsgPayload {
        content: Some(
            MsgContent {
                ciphertext: b64_encode(t.5.as_slice()),
                nonce: b64_encode(t.4.as_slice()),
                cleartext: None,
            },
        ),
        timestamp: 0,
        auth: Some(
            OpAuthPayload {
                action: String::from_str("x3dh"),
                user: String::new(),
                password: String::new(),
                keybundle: Some(generated_kb),
                message: String::new(),
                success: Some(true),
            },
        ),
        message_id: String::new(),
        author: msg.recipient.clone(),
        recipient: auth.user.clone(),
    };
    let peer = auth.user.clone();
    proof {
        let ew = choose|e: Seq<u8>|
            {
                &&& is_secret_key(e)
                &&& t.1@ == #[trigger] public_of(e)
                &&& t.3@ == x3dh_secret(
                    protocol.sk.secret@,
                    e,
                    bob_identity@,
                    bob_prekey@,
                    bob_otk@,
                )
                &&& t.5@ == aead_ct_of(t.3@, t.4@, protocol.sk.public@ + bob_identity@)
            };
        assert(is_secret_key(ew) && t.4@.len() == 12 && b64_of(t.4@) == payload@.content->Some_0.nonce);
    }
    Ok((payload, peer, t.3))
}

/// Whether some one-time key in a wire list carries the given public
/// half.
pub open spec fn wire_otk_present(otks: Seq<KeyPairView>, p: Seq<char>) -> bool {
    exists|i: int| 0 <= i < otks.len() && (#[trigger] otks[i]).public == p
}

/// The index of the first wire one-time key whose public half matches, or
/// -1 if none does.
pub open spec fn first_wire_otk(otks: Seq<KeyPairView>, p: Seq<char>) -> int
    decreases otks.len(),
{
    if otks.len() == 0 {
        -1
    } else if otks[0].public == p {
        0
    } else {
        let rest = first_wire_otk(otks.drop_first(), p);
        if rest < 0 {
            -1
        } else {
            rest + 1
        }
    }
}

/// `first_wire_otk` finds the first match exactly when one is present.
pub proof fn lemma_first_wire_otk(otks: Seq<KeyPairView>, p: Seq<char>)
    ensures
        first_wire_otk(otks, p) == -1 <==> !wire_otk_present(otks, p),
        wire_otk_present(otks, p) ==> {
            let i = first_wire_otk(otks, p);
            &&& 0 <= i < otks.len()
            &&& otks[i].public == p
            &&& forall|j: int| 0 <= j < i ==> (#[trigger] otks[j]).public != p
        },
    decreases otks.len(),
{
    if otks.len() == 0 {
    } else if otks[0].public == p {
    } else {
        lemma_first_wire_otk(otks.drop_first(), p);
        assert(forall|k: int|
            0 <= k < otks.drop_first().len() ==> otks.drop_first()[k] == otks[k + 1]);
        if wire_otk_present(otks, p) {
            let w = choose|i: int| 0 <= i < otks.len() && (#[trigger] otks[i]).public == p;
            assert(w != 0);
            assert(otks.drop_first()[w - 1].public == p);
            assert(wire_otk_present(otks.drop_first(), p));
        }
        if wire_otk_present(otks.drop_first(), p) {
            let w = choose|i: int|
                0 <= i < otks.drop_first().len() && (#[trigger] otks.drop_first()[i]).public == p;
            assert(otks[w + 1].public == p);
            assert(wire_otk_present(otks, p));
        }
        if wire_otk_present(otks, p) {
            let i0 = first_wire_otk(otks.drop_first(), p);
            assert(0 <= i0 < otks.drop_first().len());
            assert(first_wire_otk(otks, p) == i0 + 1);
            assert(otks[i0 + 1].public == p);
            assert forall|j: int| 0 <= j < i0 + 1 implies (#[trigger] otks[j]).public != p by {
                if j > 0 {
                    assert(otks.drop_first()[j - 1].public != p);
                }
            }
        }
    }
}

/// The session secret the responder derives for a handshake message,
/// using the first stored one-time key the handshake names.
pub open spec fn bob_secret(own: BundleView, m: PayloadView) -> Seq<u8> {
    let kb = m.auth->Some_0.keybundle->Some_0;
    let oi = first_wire_otk(own.onetime_keys, kb.onetime_keys[0].public);
    respond_secret(
        kp_secret(own.identity),
        kp_secret(own.prekey),
        kp_secret(own.onetime_keys[oi]),
        b64_val(kb.identity.public),
        b64_val(kb.ephemeral_key->Some_0.public),
    )
}

/// The inputs on which the responder half succeeds: the envelope carries
/// a handshake bundle with an ephemeral key and a named one-time key that
/// the local bundle holds, the local key material decodes, the
/// initiator's keys are canonical points, and the handshake ciphertext
/// authenticates under the derived secret.
pub open spec fn bob_ok(own: BundleView, m: PayloadView) -> bool {
    &&& m.auth is Some
    &&& m.auth->Some_0.keybundle is Some
    &&& m.content is Some
    &&& ({
        let kb = m.auth->Some_0.keybundle->Some_0;
        let c = m.content->Some_0;
        &&& kb.onetime_keys.len() > 0
        &&& kb.ephemeral_key is Some
        &&& kp_decodes(own.identity)
        &&& kp_decodes(own.prekey)
        &&& b64_decodable(own.signature.public)
        &&& is_signature(b64_val(own.signature.public))
        &&& wire_otk_present(own.onetime_keys, kb.onetime_keys[0].public)
        &&& kp_decodes(
            own.onetime_keys[first_wire_otk(own.onetime_keys, kb.onetime_keys[0].public)],
        )
        &&& b64_decodable(kb.identity.public)
        &&& is_public_key(b64_val(kb.identity.public))
        &&& b64_decodable(kb.ephemeral_key->Some_0.public)
        &&& is_public_key(b64_val(kb.ephemeral_key->Some_0.public))
        &&& b64_decodable(c.nonce)
        &&& b64_decodable(c.ciphertext)
        &&& b64_val(c.nonce).len() == 12
        &&& aead_decryptable(bob_secret(own, m), b64_val(c.nonce), b64_val(c.ciphertext))
    })
}

/// Run the responder half of the handshake against an inbound handshake
/// envelope. `msg` carries the initiator's handshake bundle (identity,
/// ephemeral key and the one-time key it consumed) and the handshake
/// ciphertext; `own_bundle` is the local user's stored bundle with its
/// private halves. Returns the peer to store the secret under (the
/// envelope's author) and the derived session secret.
pub fn bob_x3dh(own_bundle: &KeyBundle, msg: &MsgPayload) -> (r: Result<(String, Vec<u8>), Error>)
    ensures
        r is Ok <==> bob_ok(own_bundle@, msg@),
        !(msg@.auth is Some && msg@.auth->Some_0.keybundle is Some && msg@.content is Some
            && msg@.auth->Some_0.keybundle->Some_0.ephemeral_key is Some) ==> r is Err && (
        r->Err_0 is Custom || r->Err_0 == Error::UnknownPrekey),
        r is Ok ==> ({
            let m = msg@;
            let kb = m.auth->Some_0.keybundle->Some_0;
            let oi = first_wire_otk(own_bundle@.onetime_keys, kb.onetime_keys[0].public);
            &&& r->Ok_0.0@ == m.author
            &&& r->Ok_0.1@ == bob_secret(own_bundle@, m)
            &&& r->Ok_0.1@.len() == 32
            &&& forall|a_ik: Seq<u8>, a_ek: Seq<u8>|
                #![trigger public_of(a_ik), public_of(a_ek)]
                is_secret_key(a_ik) && is_secret_key(a_ek) && b64_val(kb.identity.public)
                    == public_of(a_ik) && b64_val(kb.ephemeral_key->Some_0.public) == public_of(
                    a_ek,
                ) ==> r->Ok_0.1@ == x3dh_secret(
                    a_ik,
                    a_ek,
                    public_of(kp_secret(own_bundle@.identity)),
                    public_of(kp_secret(own_bundle@.prekey)),
                    public_of(kp_secret(own_bundle@.onetime_keys[oi])),
                )
        }),
{
    let auth = match &msg.auth {
        Some(a) => a,
        None => return Err(Error::Custom(String::from_str("missing auth"))),
    };
    let kb = match &auth.keybundle {
        Some(b) => b,
        None => return Err(Error::Custom(String::from_str("missing key bundle"))),
    };
    let content = match &msg.content {
        Some(c) => c,
        None => return Err(Error::Custom(String::from_str("missing content"))),
    };
    if kb.onetime_keys.len() == 0 {
        return Err(Error::UnknownPrekey);
    }
    let eph = match &kb.ephemeral_key {
        Some(e) => e,
        None => return Err(Error::Custom(String::from_str("missing ephemeral key"))),
    };
    let bob_identity = match get_key_pair(&own_bundle.identity) {
        Ok(k) => k,
        Err(e) => return Err(e),
    };
    let bob_prekey = match get_key_pair(&own_bundle.prekey) {
        Ok(k) => k,
        Err(e) => return Err(e),
    };
    let bob_sig = match b64_decode_val(own_bundle.signature.public.as_str()) {
        Ok(v) => v,
        Err(e) => return Err(e),
    };
    if !check_signature_bytes(bob_sig.as_slice()) {
        return Err(Error::Decode);
    }
    let target = &kb.onetime_keys[0].public;
    let n = own_bundle.onetime_keys.len();
    let mut i: usize = 0;
    let mut found: bool = false;
    while !found && i < n
        invariant
            n == own_bundle.onetime_keys@.len(),
            i <= n,
            forall|j: int|
                0 <= j < i ==> (#[trigger] own_bundle.onetime_keys@[j])@.public != target@,
            found ==> i < n && own_bundle.onetime_keys@[i as int]@.public == target@,
        decreases
                n - i + (if found {
                    0int
                } else {
                    1int
                }),
    {
        if own_bundle.onetime_keys[i].public == *target {
            found = true;
        } else {
            i = i + 1;
        }
    }
    proof {
        lemma_first_wire_otk(own_bundle@.onetime_keys, target@);
    }
    if !found {
        proof {
            assert(!wire_otk_present(own_bundle@.onetime_keys, target@));
        }
        return Err(Error::UnknownPrekey);
    }
    proof {
        let oi = first_wire_otk(own_bundle@.onetime_keys, target@);
        assert(wire_otk_present(own_bundle@.onetime_keys, target@));
        assert(oi == i as int) by {
            if oi < i as int {
                assert((#[trigger] own_bundle.onetime_keys@[oi])@.public != target@);
            }
            if oi > i as int {
                assert(own_bundle@.onetime_keys[i as int].public != target@);
            }
        }
    }
    let otk_kp = match get_key_pair(&own_bundle.onetime_keys[i]) {
        Ok(k) => k,
        Err(e) => return Err(e),
    };
    let alice_identity = match b64_decode_val(kb.identity.public.as_str()) {
        Ok(v) => v,
        Err(e) => return Err(e),
    };
    if !check_public_key(alice_identity.as_slice()) {
        return Err(Error::Decode);
    }
    let alice_eph = match b64_decode_val(eph.public.as_str()) {
        Ok(v) => v,
        Err(e) => return Err(e),
    };
    if !check_public_key(alice_eph.as_slice()) {
        return Err(Error::Decode);
    }
    let nonce = match b64_decode_val(content.nonce.as_str()) {
        Ok(v) => v,
        Err(e) => return Err(e),
    };
    let ciphertext = match b64_decode_val(content.ciphertext.as_str()) {
        Ok(v) => v,
        Err(e) => return Err(e),
    };
    let otk_pub = copy_bytes(otk_kp.public.as_slice());
    let mut otk_vec: Vec<KeyPair> = Vec::new();
    otk_vec.push(otk_kp);
    let mut protocol = Protocol::new(bob_identity, bob_prekey, bob_sig, Some(otk_vec));
    let sk = match protocol.derive_shared_secret(
        &alice_identity,
        &alice_eph,
        &otk_pub,
        nonce.as_slice(),
        ciphertext.as_slice(),
    ) {
        Ok(v) => v,
        Err(e) => return Err(xxxdh_to_error(e)),
    };
    Ok((msg.author.clone(), sk))
}

} // verus!
