//! Data model: key pairs and key bundles in their Base64 wire form, the
//! message envelope, and the library's error type.

use vstd::prelude::*;

verus! {

/// Errors surfaced by the library, one kind per failure class.
#[derive(Debug, PartialEq, Eq)]
pub enum Error {
    /// An I/O failure (used by embedding code).
    Io,
    /// Bytes that are not valid UTF-8.
    Utf8,
    /// A string that is not canonical Base64.
    Decode,
    /// An AEAD failure: wrong key, wrong nonce, or a tampered ciphertext.
    Aead,
    /// A transport failure (used by embedding code).
    Tung,
    /// A JSON framing failure (used by embedding code).
    Serde,
    /// A key-derivation failure.
    Kdf,
    /// A signature that does not verify or does not parse.
    Signature,
    /// A handshake that names a one-time prekey absent from the local list.
    UnknownPrekey,
    /// A handshake attempted against a bundle with no one-time prekeys.
    EmptyPrekeyList,
    /// An inbound chat message from a peer with no stored session secret.
    NoSession,
    /// A persistence failure (used by embedding code).
    Storage,
    /// Any other failure, described in the payload.
    Custom(String),
}

/// Ghost form of a key pair: both halves as character sequences.
#[verifier::ext_equal]
pub struct KeyPairView {
    pub public: Seq<char>,
    pub private: Option<Seq<char>>,
}

/// A key pair in wire form: Base64 strings, the private half present only
/// in locally-owned copies.
#[derive(Debug)]
pub struct KeyPairB64 {
    pub public: String,
    pub private: Option<String>,
}

impl View for KeyPairB64 {
    type V = KeyPairView;

    open spec fn view(&self) -> KeyPairView {
        KeyPairView {
            public: self.public@,
            private: match self.private {
                Some(p) => Some(p@),
                None => None,
            },
        }
    }
}

/// A key pair with its private half removed.
pub open spec fn strip_keypair(k: KeyPairView) -> KeyPairView {
    KeyPairView { public: k.public, private: None }
}

impl Clone for KeyPairB64 {
    /// Cloning preserves the wire form.
    fn clone(&self) -> (r: Self)
        ensures
            r@ == self@,
    {
        KeyPairB64 {
            public: self.public.clone(),
            private: match &self.private {
                Some(p) => Some(p.clone()),
                None => None,
            },
        }
    }
}

impl KeyPairB64 {
    /// Remove the private half; the public half is unchanged.
    pub fn strip(&mut self)
        ensures
            final(self)@ == strip_keypair(old(self)@),
    {
        self.private = None;
    }
}

/// Ghost form of a key bundle.
#[verifier::ext_equal]
pub struct BundleView {
    pub identity: KeyPairView,
    pub prekey: KeyPairView,
    pub signature: KeyPairView,
    pub onetime_keys: Seq<KeyPairView>,
    pub ephemeral_key: Option<KeyPairView>,
}

/// The set of keys a user publishes (identity, signed prekey, one-time
/// prekeys) plus, only inside an initiator's handshake payload, an
/// ephemeral key. The signature rides as a `KeyPairB64` whose public half
/// holds the detached signature bytes.
#[derive(Debug)]
pub struct KeyBundle {
    pub identity: KeyPairB64,
    pub prekey: KeyPairB64,
    pub signature: KeyPairB64,
    pub onetime_keys: Vec<KeyPairB64>,
    pub ephemeral_key: Option<KeyPairB64>,
}

impl View for KeyBundle {
    type V = BundleView;

    open spec fn view(&self) -> BundleView {
        BundleView {
            identity: self.identity@,
            prekey: self.prekey@,
            signature: self.signature@,
            onetime_keys: self.onetime_keys@.map_values(|k: KeyPairB64| k@),
            ephemeral_key: match self.ephemeral_key {
                Some(k) => Some(k@),
                None => None,
            },
        }
    }
}

/// A bundle with every private half removed.
pub open spec fn strip_bundle(b: BundleView) -> BundleView {
    BundleView {
        identity: strip_keypair(b.identity),
        prekey: strip_keypair(b.prekey),
        signature: strip_keypair(b.signature),
        onetime_keys: b.onetime_keys.map_values(|k: KeyPairView| strip_keypair(k)),
        ephemeral_key: match b.ephemeral_key {
            Some(k) => Some(strip_keypair(k)),
            None => None,
        },
    }
}

/// No private half is present anywhere in the bundle.
pub open spec fn bundle_stripped(b: BundleView) -> bool {
    &&& b.identity.private is None
    &&& b.prekey.private is None
    &&& b.signature.private is None
    &&& forall|i: int| 0 <= i < b.onetime_keys.len() ==> b.onetime_keys[i].private is None
    &&& (b.ephemeral_key matches Some(k) ==> k.private is None)
}

impl Clone for KeyBundle {
    /// Cloning preserves the wire form.
    fn clone(&self) -> (r: Self)
        ensures
            r@ == self@,
    {
        let mut onetime_keys: Vec<KeyPairB64> = Vec::new();
        let mut i: usize = 0;
        while i < self.onetime_keys.len()
            invariant
                i <= self.onetime_keys.len(),
                onetime_keys@.len() == i as int,
                forall|j: int| 0 <= j < i ==> onetime_keys@[j]@ == self.onetime_keys@[j]@,
            decreases self.onetime_keys.len() - i,
        {
            onetime_keys.push(self.onetime_keys[i].clone());
            i = i + 1;
        }
        let r = KeyBundle {
            identity: self.identity.clone(),
            prekey: self.prekey.clone(),
            signature: self.signature.clone(),
            onetime_keys,
            ephemeral_key: match &self.ephemeral_key {
                Some(k) => Some(k.clone()),
                None => None,
            },
        };
        proof {
            assert(r@.onetime_keys =~= self@.onetime_keys);
            assert(r@ =~= self@);
        }
        r
    }
}

impl KeyBundle {
    /// Project the bundle to its public-only form: every private half is
    /// removed, every public half and the order of the one-time keys are
    /// kept.
    pub fn strip(&mut self)
        ensures
            final(self)@ == strip_bundle(old(self)@),
            bundle_stripped(final(self)@),
    {
        self.identity.strip();
        self.prekey.strip();
        self.signature.strip();
        let mut stripped: Vec<KeyPairB64> = Vec::new();
        let mut i: usize = 0;
        while i < self.onetime_keys.len()
            invariant
                i <= self.onetime_keys.len(),
                self.onetime_keys@ == old(self).onetime_keys@,
                stripped@.len() == i as int,
                forall|j: int| 0 <= j < i ==> stripped@[j]@ == strip_keypair(
                    old(self).onetime_keys@[j]@,
                ),
            decreases self.onetime_keys.len() - i,
        {
            let kp = KeyPairB64 { public: self.onetime_keys[i].public.clone(), private: None };
            stripped.push(kp);
            i = i + 1;
        }
        self.onetime_keys = stripped;
        match &mut self.ephemeral_key {
            Some(v) => v.strip(),
            None => (),
        };
        proof {
            assert(self@.onetime_keys =~= strip_bundle(old(self)@).onetime_keys);
            assert(self@ =~= strip_bundle(old(self)@));
            lemma_strip_stripped(old(self)@);
        }
    }
}

/// A stripped bundle holds no private half.
pub proof fn lemma_strip_stripped(b: BundleView)
    ensures
        bundle_stripped(strip_bundle(b)),
{
}

/// Stripping is idempotent: stripping an already stripped bundle changes
/// nothing.
pub proof fn lemma_strip_idempotent(b: BundleView)
    ensures
        strip_bundle(strip_bundle(b)) == strip_bundle(b),
{
    assert(strip_bundle(strip_bundle(b)).onetime_keys =~= strip_bundle(b).onetime_keys);
    assert(strip_bundle(strip_bundle(b)) =~= strip_bundle(b));
}

/// Ghost form of a message body.
#[verifier::ext_equal]
pub struct ContentView {
    pub ciphertext: Seq<char>,
    pub nonce: Seq<char>,
    pub cleartext: Option<Seq<char>>,
}

/// A message body: ciphertext and nonce in Base64 on the wire; cleartext
/// is filled only after local decryption and must be absent on the wire.
#[derive(Debug)]
pub struct MsgContent {
    pub ciphertext: String,
    pub nonce: String,
    pub cleartext: Option<String>,
}

impl View for MsgContent {
    type V = ContentView;

    open spec fn view(&self) -> ContentView {
        ContentView {
            ciphertext: self.ciphertext@,
            nonce: self.nonce@,
            cleartext: match self.cleartext {
                Some(c) => Some(c@),
                None => None,
            },
        }
    }
}

impl Clone for MsgContent {
    /// Cloning preserves the wire form.
    fn clone(&self) -> (r: Self)
        ensures
            r@ == self@,
    {
        MsgContent {
            ciphertext: self.ciphertext.clone(),
            nonce: self.nonce.clone(),
            cleartext: match &self.cleartext {
                Some(c) => Some(c.clone()),
                None => None,
            },
        }
    }
}

/// Ghost form of a control-plane operation.
#[verifier::ext_equal]
pub struct AuthView {
    pub action: Seq<char>,
    pub user: Seq<char>,
    pub password: Seq<char>,
    pub keybundle: Option<BundleView>,
    pub message: Seq<char>,
    pub success: Option<bool>,
}

/// A control-plane operation: register, login, logout, fetch_bundle or
/// x3dh, optionally carrying a key bundle.
#[derive(Debug)]
pub struct OpAuthPayload {
    pub action: String,
    pub user: String,
    pub password: String,
    pub keybundle: Option<KeyBundle>,
    pub message: String,
    pub success: Option<bool>,
}

impl View for OpAuthPayload {
    type V = AuthView;

    open spec fn view(&self) -> AuthView {
        AuthView {
            action: self.action@,
            user: self.user@,
            password: self.password@,
            keybundle: match self.keybundle {
                Some(b) => Some(b@),
                None => None,
            },
            message: self.message@,
            success: self.success,
        }
    }
}

impl Clone for OpAuthPayload {
    /// Cloning preserves the wire form.
    fn clone(&self) -> (r: Self)
        ensures
            r@ == self@,
    {
        OpAuthPayload {
            action: self.action.clone(),
            user: self.user.clone(),
            password: self.password.clone(),
            keybundle: match &self.keybundle {
                Some(b) => Some(b.clone()),
                None => None,
            },
            message: self.message.clone(),
            success: match &self.success {
                Some(s) => Some(*s),
                None => None,
            },
        }
    }
}

/// Ghost form of a wire envelope.
#[verifier::ext_equal]
pub struct PayloadView {
    pub content: Option<ContentView>,
    pub timestamp: u64,
    pub auth: Option<AuthView>,
    pub message_id: Seq<char>,
    pub author: Seq<char>,
    pub recipient: Seq<char>,
}

/// The wire envelope: either `auth` carries a control-plane operation or
/// `content` carries a data-plane message.
#[derive(Debug)]
pub struct MsgPayload {
    pub content: Option<MsgContent>,
    pub timestamp: u64,
    pub auth: Option<OpAuthPayload>,
    pub message_id: String,
    pub author: String,
    pub recipient: String,
}

impl View for MsgPayload {
    type V = PayloadView;

    open spec fn view(&self) -> PayloadView {
        PayloadView {
            content: match self.content {
                Some(c) => Some(c@),
                None => None,
            },
            timestamp: self.timestamp,
            auth: match self.auth {
                Some(a) => Some(a@),
                None => None,
            },
            message_id: self.message_id@,
            author: self.author@,
            recipient: self.recipient@,
        }
    }
}

impl Clone for MsgPayload {
    /// Cloning preserves the wire form.
    fn clone(&self) -> (r: Self)
        ensures
            r@ == self@,
    {
        MsgPayload {
            content: match &self.content {
                Some(c) => Some(c.clone()),
                None => None,
            },
            timestamp: self.timestamp,
            auth: match &self.auth {
                Some(a) => Some(a.clone()),
                None => None,
            },
            message_id: self.message_id.clone(),
            author: self.author.clone(),
            recipient: self.recipient.clone(),
        }
    }
}

/// What a connection attempt reports back: the host connected to and
/// whether the stream is TLS-protected.
#[derive(Debug)]
pub struct ConnectionInfo {
    pub host: String,
    pub stream_type: String,
}

impl Clone for ConnectionInfo {
    /// Cloning preserves both fields.
    fn clone(&self) -> (r: Self)
        ensures
            r.host@ == self.host@,
            r.stream_type@ == self.stream_type@,
    {
        ConnectionInfo { host: self.host.clone(), stream_type: self.stream_type.clone() }
    }
}

} // verus!
