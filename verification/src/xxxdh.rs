//! X3DH protocol engine: the four Diffie-Hellman combinations in their
//! fixed order, HKDF-SHA256 derivation with the protocol's info string,
//! and handshake ciphertext construction and validation.

use vstd::prelude::*;

verus! {

use crate::codec::{append_bytes, bytes_eq, copy_bytes, zero_bytes, zeros};
use crate::prims::{
    aead_ct_of, aead_decrypt, aead_decryptable, aead_encrypt, aead_pt_max, check_public_key,
    dh_bytes, dh_shared, generate_keypair_bytes, hkdf32_of, hkdf_sha256, is_public_key,
    is_secret_key, is_signature, public_of, random_nonce, sig_verifies, verify_bytes,
};

/// X3DH protocol errors.
#[derive(Debug, Clone, Copy, PartialEq, Eq, Structural)]
pub enum XxxDhError {
    /// There are no one-time prekeys available.
    EmptyPrekeyList,
    /// The named one-time prekey is not in the local list.
    UnknownPrekey,
    /// The receiver's prekey signature does not verify under its identity
    /// key, or the identity key or signature does not parse.
    BadPrekeySignature,
    /// The underlying KDF failed.
    KdfError,
    /// A key did not parse or a Diffie-Hellman step failed.
    KeypairError,
    /// The underlying AEAD cipher failed; on the responder side, the
    /// handshake ciphertext did not authenticate.
    AeadError,
    /// The underlying signature primitive failed.
    SignatureError,
    /// A storage related error.
    StorageError(StorageError),
}

/// Storage related errors.
#[derive(Debug, Clone, Copy, PartialEq, Eq, Structural)]
pub enum StorageError {
    /// Something went wrong.
    UnknownError,
}

/// A Ristretto255 key pair held as raw bytes: a 64-byte secret (canonical
/// scalar plus nonce seed) and its derived 32-byte public key.
#[derive(Debug)]
pub struct KeyPair {
    pub secret: Vec<u8>,
    pub public: Vec<u8>,
}

impl KeyPair {
    /// The secret half parses and the public half is derived from it.
    pub open spec fn wf(&self) -> bool {
        &&& is_secret_key(self.secret@)
        &&& self.secret@.len() == 64
        &&& self.public@ == public_of(self.secret@)
        &&& is_public_key(self.public@)
        &&& self.public@.len() == 32
    }

    /// Generate a fresh random key pair.
    pub fn generate() -> (r: KeyPair)
        ensures
            r.wf(),
    {
        let (secret, public) = generate_keypair_bytes();
        KeyPair { secret, public }
    }
}

impl Clone for KeyPair {
    /// Cloning preserves both halves.
    fn clone(&self) -> (r: Self)
        ensures
            r.secret@ == self.secret@,
            r.public@ == self.public@,
    {
        KeyPair {
            secret: copy_bytes(self.secret.as_slice()),
            public: copy_bytes(self.public.as_slice()),
        }
    }
}

/// The X3DH input key material: a 32-byte zero prefix followed by the
/// four Diffie-Hellman results in protocol order.
pub open spec fn x3dh_ikm(dh1: Seq<u8>, dh2: Seq<u8>, dh3: Seq<u8>, dh4: Seq<u8>) -> Seq<u8> {
    zero_bytes(32) + dh1 + dh2 + dh3 + dh4
}

/// The ASCII bytes of the protocol's fixed HKDF info string.
pub open spec fn x3dh_info() -> Seq<u8> {
    vstd::utf8::encode_utf8("X3DH"@)
}

/// The session secret the initiator derives: its identity and ephemeral
/// secrets against the responder's identity, signed-prekey and one-time
/// public keys, paired in the protocol's fixed order.
pub open spec fn x3dh_secret(
    ik_a: Seq<u8>,
    ek_a: Seq<u8>,
    ik_b: Seq<u8>,
    spk_b: Seq<u8>,
    opk_b: Seq<u8>,
) -> Seq<u8> {
    hkdf32_of(
        zero_bytes(32),
        x3dh_ikm(
            dh_shared(ik_a, spk_b),
            dh_shared(ek_a, ik_b),
            dh_shared(ek_a, spk_b),
            dh_shared(ek_a, opk_b),
        ),
        x3dh_info(),
    )
}

/// The session secret the responder derives: its signed-prekey, identity
/// and one-time secrets against the initiator's identity and ephemeral
/// public keys, mirroring the initiator's pairing.
pub open spec fn respond_secret(
    ik_b: Seq<u8>,
    spk_b: Seq<u8>,
    otk_b: Seq<u8>,
    ik_a: Seq<u8>,
    ek_a: Seq<u8>,
) -> Seq<u8> {
    hkdf32_of(
        zero_bytes(32),
        x3dh_ikm(
            dh_shared(spk_b, ik_a),
            dh_shared(ik_b, ek_a),
            dh_shared(spk_b, ek_a),
            dh_shared(otk_b, ek_a),
        ),
        x3dh_info(),
    )
}

/// The inputs on which the initiator accepts the responder's bundle: the
/// identity key and the signature parse, and the signature over the
/// prekey bytes verifies under the identity key.
pub open spec fn prekey_signature_ok(ik_b: Seq<u8>, spk_b: Seq<u8>, sg: Seq<u8>) -> bool {
    is_public_key(ik_b) && is_signature(sg) && sig_verifies(ik_b, spk_b, sg)
}

/// Whether some one-time key pair in the list has the given public half.
pub open spec fn otk_present(otks: Seq<KeyPair>, p: Seq<u8>) -> bool {
    exists|i: int| 0 <= i < otks.len() && (#[trigger] otks[i]).public@ == p
}

/// The index of the first one-time key pair whose public half matches,
/// or -1 if none does.
pub open spec fn first_otk(otks: Seq<KeyPair>, p: Seq<u8>) -> int
    decreases otks.len(),
{
    if otks.len() == 0 {
        -1
    } else if otks[0].public@ == p {
        0
    } else {
        let rest = first_otk(otks.drop_first(), p);
        if rest < 0 {
            -1
        } else {
            rest + 1
        }
    }
}

/// `first_otk` finds the first match exactly when one is present.
pub proof fn lemma_first_otk(otks: Seq<KeyPair>, p: Seq<u8>)
    ensures
        first_otk(otks, p) == -1 <==> !otk_present(otks, p),
        otk_present(otks, p) ==> {
            let i = first_otk(otks, p);
            &&& 0 <= i < otks.len()
            &&& otks[i].public@ == p
            &&& forall|j: int| 0 <= j < i ==> (#[trigger] otks[j]).public@ != p
        },
    decreases otks.len(),
{
    if otks.len() == 0 {
    } else if otks[0].public@ == p {
    } else {
        lemma_first_otk(otks.drop_first(), p);
        assert(forall|k: int|
            0 <= k < otks.drop_first().len() ==> otks.drop_first()[k] == otks[k + 1]);
        if otk_present(otks, p) {
            let w = choose|i: int| 0 <= i < otks.len() && (#[trigger] otks[i]).public@ == p;
            assert(w != 0);
            assert(otks.drop_first()[w - 1].public@ == p);
            assert(otk_present(otks.drop_first(), p));
        }
        if otk_present(otks.drop_first(), p) {
            let w = choose|i: int|
                0 <= i < otks.drop_first().len() && (#[trigger] otks.drop_first()[i]).public@ == p;
            assert(otks[w + 1].public@ == p);
            assert(otk_present(otks, p));
        }
        if otk_present(otks, p) {
            let i0 = first_otk(otks.drop_first(), p);
            assert(0 <= i0 < otks.drop_first().len());
            assert(first_otk(otks, p) == i0 + 1);
            assert(otks[i0 + 1].public@ == p);
            assert forall|j: int| 0 <= j < i0 + 1 implies (#[trigger] otks[j]).public@ != p by {
                if j > 0 {
                    assert(otks.drop_first()[j - 1].public@ != p);
                }
            }
        }
    }
}

/// X3DH protocol state for one handshake: the local identity key pair,
/// the signed-prekey pair, its signature, and (responder role only) the
/// one-time prekey pairs.
#[derive(Debug)]
pub struct Protocol {
    pub sk: KeyPair,
    pub esk: KeyPair,
    pub sig: Vec<u8>,
    pub otk: Option<Vec<KeyPair>>,
}

impl Protocol {
    /// Every key pair held by the protocol instance is well formed.
    pub open spec fn wf(&self) -> bool {
        &&& self.sk.wf()
        &&& self.esk.wf()
        &&& match self.otk {
            Some(v) => forall|i: int| 0 <= i < v@.len() ==> (#[trigger] v@[i]).wf(),
            None => true,
        }
    }

    /// The responder's one-time key pairs, or empty if none were given.
    pub open spec fn otks(&self) -> Seq<KeyPair> {
        match self.otk {
            Some(v) => v@,
            None => Seq::empty(),
        }
    }

    /// Assemble a protocol instance from the local key material.
    pub fn new(
        identity_keypair: KeyPair,
        prekey_keypair: KeyPair,
        prekey_signature: Vec<u8>,
        onetime_keypairs: Option<Vec<KeyPair>>,
    ) -> (r: Self)
        ensures
            r.sk == identity_keypair,
            r.esk == prekey_keypair,
            r.sig == prekey_signature,
            r.otk == onetime_keypairs,
    {
        Protocol {
            sk: identity_keypair,
            esk: prekey_keypair,
            sig: prekey_signature,
            otk: onetime_keypairs,
        }
    }

    /// Derive a secret key: HKDF-SHA256 over a zero salt and the zero
    /// prefix followed by the four Diffie-Hellman results, with the
    /// protocol's info string.
    fn derive_sk(dh1: &Vec<u8>, dh2: &Vec<u8>, dh3: &Vec<u8>, dh4: &Vec<u8>) -> (r: Vec<u8>)
        ensures
            r@ == hkdf32_of(zero_bytes(32), x3dh_ikm(dh1@, dh2@, dh3@, dh4@), x3dh_info()),
            r@.len() == 32,
    {
        let salt = zeros(32);
        let mut data = zeros(32);
        append_bytes(&mut data, dh1.as_slice());
        append_bytes(&mut data, dh2.as_slice());
        append_bytes(&mut data, dh3.as_slice());
        append_bytes(&mut data, dh4.as_slice());
        let info = "X3DH".as_bytes();
        proof {
            assert(data@ == x3dh_ikm(dh1@, dh2@, dh3@, dh4@));
            assert(info@ == x3dh_info());
        }
        hkdf_sha256(salt.as_slice(), data.as_slice(), info)
    }

    /// Derive the session secret and build the initial handshake message
    /// from the receiver's public keys. The receiver's prekey signature
    /// is verified first; the handshake ciphertext encrypts the two
    /// identity public keys under the fresh session secret.
    pub fn prepare_init_msg(
        &mut self,
        receiver_identity: &Vec<u8>,
        receiver_prekey: &Vec<u8>,
        receiver_prekey_signature: &Vec<u8>,
        receiver_onetime_key: &Vec<u8>,
    ) -> (r: Result<(Vec<u8>, Vec<u8>, Vec<u8>, Vec<u8>, Vec<u8>, Vec<u8>), XxxDhError>)
        requires
            old(self).wf(),
        ensures
            *final(self) == *old(self),
            r is Ok <==> prekey_signature_ok(
                receiver_identity@,
                receiver_prekey@,
                receiver_prekey_signature@,
            ) && is_public_key(receiver_prekey@) && is_public_key(receiver_onetime_key@),
            !prekey_signature_ok(receiver_identity@, receiver_prekey@, receiver_prekey_signature@)
                ==> r == Err::<(Vec<u8>, Vec<u8>, Vec<u8>, Vec<u8>, Vec<u8>, Vec<u8>), XxxDhError>(
                XxxDhError::BadPrekeySignature,
            ),
            prekey_signature_ok(receiver_identity@, receiver_prekey@, receiver_prekey_signature@)
                && !(is_public_key(receiver_prekey@) && is_public_key(receiver_onetime_key@))
                ==> r == Err::<(Vec<u8>, Vec<u8>, Vec<u8>, Vec<u8>, Vec<u8>, Vec<u8>), XxxDhError>(
                XxxDhError::KeypairError,
            ),
            r is Ok ==> ({
                let t = r->Ok_0;
                &&& t.0@ == old(self).sk.public@
                &&& t.2@ == receiver_onetime_key@
                &&& t.3@.len() == 32
                &&& t.4@.len() == 12
                &&& exists|e: Seq<u8>|
                    {
                        &&& is_secret_key(e)
                        &&& t.1@ == #[trigger] public_of(e)
                        &&& t.3@ == x3dh_secret(
                            old(self).sk.secret@,
                            e,
                            receiver_identity@,
                            receiver_prekey@,
                            receiver_onetime_key@,
                        )
                        &&& t.5@ == aead_ct_of(t.3@, t.4@, old(self).sk.public@ + receiver_identity@)
                    }
            }),
    {
        if !verify_bytes(
            receiver_identity.as_slice(),
            receiver_prekey.as_slice(),
            receiver_prekey_signature.as_slice(),
        ) {
            return Err(XxxDhError::BadPrekeySignature);
        }
        let ik_sized = check_public_key(receiver_identity.as_slice());
        proof {
            assert(ik_sized);
        }
        if !(check_public_key(receiver_prekey.as_slice()) && check_public_key(
            receiver_onetime_key.as_slice(),
        )) {
            return Err(XxxDhError::KeypairError);
        }
        let (e_sec, e_pub) = generate_keypair_bytes();
        let dh1 = match dh_bytes(self.sk.secret.as_slice(), receiver_prekey.as_slice()) {
            Ok(v) => v,
            Err(_) => return Err(XxxDhError::KeypairError),
        };
        let dh2 = match dh_bytes(e_sec.as_slice(), receiver_identity.as_slice()) {
            Ok(v) => v,
            Err(_) => return Err(XxxDhError::KeypairError),
        };
        let dh3 = match dh_bytes(e_sec.as_slice(), receiver_prekey.as_slice()) {
            Ok(v) => v,
            Err(_) => return Err(XxxDhError::KeypairError),
        };
        let dh4 = match dh_bytes(e_sec.as_slice(), receiver_onetime_key.as_slice()) {
            Ok(v) => v,
            Err(_) => return Err(XxxDhError::KeypairError),
        };
        let sk_out = Self::derive_sk(&dh1, &dh2, &dh3, &dh4);
        let nonce = random_nonce();
        let mut data = copy_bytes(self.sk.public.as_slice());
        append_bytes(&mut data, receiver_identity.as_slice());
        let ct = match aead_encrypt(sk_out.as_slice(), nonce.as_slice(), data.as_slice()) {
            Ok(v) => v,
            Err(_) => return Err(XxxDhError::AeadError),
        };
        let my_pub = copy_bytes(self.sk.public.as_slice());
        let opk_back = copy_bytes(receiver_onetime_key.as_slice());
        let res = (my_pub, e_pub, opk_back, sk_out, nonce, ct);
        proof {
            assert(res.3@ == x3dh_secret(
                self.sk.secret@,
                e_sec@,
                receiver_identity@,
                receiver_prekey@,
                receiver_onetime_key@,
            ));
        }
        Ok(res)
    }

    /// Derive the session secret from an initiator's handshake message,
    /// using the first stored one-time key pair whose public half matches
    /// the named one, and authenticate the handshake ciphertext under the
    /// derived secret. The matched one-time key stays in the list; no
    /// entry is removed on use.
    pub fn derive_shared_secret(
        &mut self,
        sender_identity: &Vec<u8>,
        sender_ephemeral_key: &Vec<u8>,
        receiver_onetime_key: &Vec<u8>,
        nonce: &[u8],
        ciphertext: &[u8],
    ) -> (r: Result<Vec<u8>, XxxDhError>)
        requires
            old(self).wf(),
        ensures
            *final(self) == *old(self),
            ({
                let os = old(self).otks();
                let idx = first_otk(os, receiver_onetime_key@);
                let keys_valid = is_public_key(sender_identity@) && is_public_key(
                    sender_ephemeral_key@,
                );
                &&& os.len() == 0 ==> r == Err::<Vec<u8>, XxxDhError>(XxxDhError::EmptyPrekeyList)
                &&& os.len() > 0 && idx < 0 ==> r == Err::<Vec<u8>, XxxDhError>(
                    XxxDhError::UnknownPrekey,
                )
                &&& os.len() > 0 && idx >= 0 && !keys_valid ==> r == Err::<Vec<u8>, XxxDhError>(
                    XxxDhError::KeypairError,
                )
                &&& os.len() > 0 && idx >= 0 && keys_valid ==> ({
                    let ss = respond_secret(
                        old(self).sk.secret@,
                        old(self).esk.secret@,
                        os[idx].secret@,
                        sender_identity@,
                        sender_ephemeral_key@,
                    );
                    &&& (r is Ok <==> nonce@.len() == 12 && aead_decryptable(
                        ss,
                        nonce@,
                        ciphertext@,
                    ))
                    &&& (r is Err ==> r == Err::<Vec<u8>, XxxDhError>(XxxDhError::AeadError))
                    &&& (r is Ok ==> r->Ok_0@ == ss && r->Ok_0@.len() == 32)
                    &&& (r is Ok ==> forall|a_ik: Seq<u8>, a_ek: Seq<u8>|
                        #![trigger public_of(a_ik), public_of(a_ek)]
                        is_secret_key(a_ik) && is_secret_key(a_ek) && sender_identity@ == public_of(
                            a_ik,
                        ) && sender_ephemeral_key@ == public_of(a_ek) ==> ss == x3dh_secret(
                            a_ik,
                            a_ek,
                            old(self).sk.public@,
                            old(self).esk.public@,
                            os[idx].public@,
                        ))
                })
            }),
    {
        let otk_list = match &self.otk {
            Some(v) => v,
            None => {
                return Err(XxxDhError::EmptyPrekeyList);
            },
        };
        let n = otk_list.len();
        if n == 0 {
            return Err(XxxDhError::EmptyPrekeyList);
        }
        let mut i: usize = 0;
        let mut found: bool = false;
        while !found && i < n
            invariant
                n == otk_list@.len(),
                i <= n,
                forall|j: int|
                    0 <= j < i ==> (#[trigger] otk_list@[j]).public@ != receiver_onetime_key@,
                found ==> i < n && otk_list@[i as int].public@ == receiver_onetime_key@,
            decreases n - i + (if found {
                0int
            } else {
                1int
            }),
        {
            if bytes_eq(otk_list[i].public.as_slice(), receiver_onetime_key.as_slice()) {
                found = true;
            } else {
                i = i + 1;
            }
        }
        proof {
            lemma_first_otk(self.otks(), receiver_onetime_key@);
        }
        if !found {
            proof {
                assert(!otk_present(self.otks(), receiver_onetime_key@));
            }
            return Err(XxxDhError::UnknownPrekey);
        }
        proof {
            assert(otk_present(self.otks(), receiver_onetime_key@));
            let idx = first_otk(self.otks(), receiver_onetime_key@);
            assert(idx == i as int) by {
                if idx < i as int {
                    assert(otk_list@[idx].public@ != receiver_onetime_key@);
                }
                if idx > i as int {
                    assert((#[trigger] otk_list@[i as int]).public@ != receiver_onetime_key@);
                }
            }
        }
        let dh1 = match dh_bytes(self.esk.secret.as_slice(), sender_identity.as_slice()) {
            Ok(v) => v,
            Err(_) => return Err(XxxDhError::KeypairError),
        };
        let dh2 = match dh_bytes(self.sk.secret.as_slice(), sender_ephemeral_key.as_slice()) {
            Ok(v) => v,
            Err(_) => return Err(XxxDhError::KeypairError),
        };
        let dh3 = match dh_bytes(self.esk.secret.as_slice(), sender_ephemeral_key.as_slice()) {
            Ok(v) => v,
            Err(_) => return Err(XxxDhError::KeypairError),
        };
        let dh4 = match dh_bytes(otk_list[i].secret.as_slice(), sender_ephemeral_key.as_slice()) {
            Ok(v) => v,
            Err(_) => return Err(XxxDhError::KeypairError),
        };
        let ss = Self::derive_sk(&dh1, &dh2, &dh3, &dh4);
        if nonce.len() != 12 {
            return Err(XxxDhError::AeadError);
        }
        match aead_decrypt(ss.as_slice(), nonce, ciphertext) {
            Ok(_) => (),
            Err(_) => {
                return Err(XxxDhError::AeadError);
            },
        };
        proof {
            let os = self.otks();
            let idx = first_otk(os, receiver_onetime_key@);
            assert forall|a_ik: Seq<u8>, a_ek: Seq<u8>|
                #![trigger public_of(a_ik), public_of(a_ek)]
                is_secret_key(a_ik) && is_secret_key(a_ek) && sender_identity@ == public_of(a_ik)
                    && sender_ephemeral_key@ == public_of(a_ek) implies ss@ == x3dh_secret(
                a_ik,
                a_ek,
                self.sk.public@,
                self.esk.public@,
                os[idx].public@,
            ) by {
                assert(dh1@ == dh_shared(a_ik, public_of(self.esk.secret@)));
                assert(dh2@ == dh_shared(a_ek, public_of(self.sk.secret@)));
                assert(dh3@ == dh_shared(a_ek, public_of(self.esk.secret@)));
                assert(dh4@ == dh_shared(a_ek, public_of(os[idx].secret@)));
            }
        }
        Ok(ss)
    }
}

} // verus!
