//! Verified core of an end-to-end encrypted messaging client.
//!
//! The library implements the X3DH key agreement over the Ristretto255
//! group, an AES-256-GCM session layer with a legacy passphrase cipher,
//! the signed key-bundle data model with its public-only projection, and
//! the client-side state machine that queues outbound plaintext until a
//! session secret exists for its recipient. Calls into the underlying
//! cryptographic crates stand behind trusted wrappers in `prims` and
//! `codec`; everything above them is verified.

pub mod client;
pub mod codec;
pub mod crypt;
pub mod prims;
pub mod util;
pub mod x3dh;
pub mod xxxdh;
