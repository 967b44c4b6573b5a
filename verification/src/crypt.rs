//! Legacy passphrase cipher: the SHA-256 hex digest of the passphrase,
//! truncated to 32 bytes, keys AES-256-GCM; the fresh 12-byte nonce is
//! appended to the ciphertext and the whole blob is Base64-encoded.

use vstd::prelude::*;

verus! {

broadcast use vstd::utf8::encode_utf8_valid_utf8, vstd::utf8::encode_utf8_decode_utf8, vstd::utf8::decode_utf8_encode_utf8;

use vstd::string::StrSliceExecFns;
use vstd::utf8::encode_utf8;
use crate::codec::{append_bytes, b64_decode, b64_encode, b64_of, skip_prefix, take_prefix};
use crate::prims::{
    aead_ct_of, aead_decrypt, aead_encrypt, aead_pt_max, random_nonce, sha256_hex_bytes,
    sha256_hex_of,
};
use crate::util::Error;

/// The 32-byte AES key a passphrase yields: the first half of the ASCII
/// hex SHA-256 digest of the passphrase.
pub open spec fn legacy_key(k: Seq<char>) -> Seq<u8> {
    sha256_hex_of(k).take(32)
}

/// The wire form of a legacy encryption: the AEAD ciphertext of the
/// message's UTF-8 bytes under the passphrase key and a nonce, the nonce
/// appended, everything Base64-encoded.
pub open spec fn legacy_blob(k: Seq<char>, nonce: Seq<u8>, m: Seq<char>) -> Seq<char> {
    b64_of(aead_ct_of(legacy_key(k), nonce, encode_utf8(m)) + nonce)
}

/// Encrypt a plaintext under a passphrase with a fresh random nonce.
/// Only a plaintext beyond the cipher's size limit is refused.
pub fn encrypt(key: String, plaintext: String) -> (r: Result<String, Error>)
    ensures
        r is Ok <==> encode_utf8(plaintext@).len() <= aead_pt_max(),
        r is Ok ==> exists|n: Seq<u8>|
            #![trigger legacy_blob(key@, n, plaintext@)]
            n.len() == 12 && r->Ok_0@ == legacy_blob(key@, n, plaintext@),
        r is Err ==> r->Err_0 == Error::Aead,
{
    let hash = sha256_hex_bytes(key.as_str());
    let crypt_key = take_prefix(hash.as_slice(), 32);
    let plaintext_bytes = plaintext.as_str().as_bytes_vec();
    let nonce = random_nonce();
    let mut ciphertext = match aead_encrypt(
        crypt_key.as_slice(),
        nonce.as_slice(),
        plaintext_bytes.as_slice(),
    ) {
        Ok(c) => c,
        Err(_) => return Err(Error::Aead),
    };
    append_bytes(&mut ciphertext, nonce.as_slice());
    let b64 = b64_encode(ciphertext.as_slice());
    proof {
        assert(b64@ == legacy_blob(key@, nonce@, plaintext@));
    }
    Ok(b64)
}

/// Decrypt a legacy blob under a passphrase. On any blob that `encrypt`
/// produced under the same passphrase, the original plaintext comes back;
/// a blob that does not decode, is too short to carry a nonce, fails
/// authentication or holds invalid UTF-8 is refused with the matching
/// error kind.
pub fn decrypt(key: String, ciphertext: String) -> (r: Result<String, Error>)
    ensures
        forall|n: Seq<u8>, m: Seq<char>|
            #![trigger legacy_blob(key@, n, m)]
            n.len() == 12 && ciphertext@ == legacy_blob(key@, n, m) && encode_utf8(m).len()
                <= aead_pt_max() ==> r is Ok && r->Ok_0@ == m,
        r is Ok ==> exists|n: Seq<u8>|
            #![trigger legacy_blob(key@, n, r->Ok_0@)]
            n.len() == 12 && ciphertext@ == legacy_blob(key@, n, r->Ok_0@),
        r is Err ==> (r->Err_0 == Error::Decode || r->Err_0 == Error::Aead || r->Err_0
            == Error::Utf8),
{
    let hash = sha256_hex_bytes(key.as_str());
    let crypt_key = take_prefix(hash.as_slice(), 32);
    let blob = match b64_decode(ciphertext.as_str()) {
        Ok(v) => v,
        Err(_) => return Err(Error::Decode),
    };
    if blob.len() < 12 {
        return Err(Error::Decode);
    }
    let split_at = blob.len() - 12;
    let ct_part = take_prefix(blob.as_slice(), split_at);
    let nonce = skip_prefix(blob.as_slice(), split_at);
    proof {
        assert(forall|n: Seq<u8>, m: Seq<char>|
            n.len() == 12 && ciphertext@ == legacy_blob(key@, n, m) ==> blob@ == aead_ct_of(
                legacy_key(key@),
                n,
                encode_utf8(m),
            ) + n);
        assert forall|n: Seq<u8>, m: Seq<char>|
            n.len() == 12 && ciphertext@ == legacy_blob(key@, n, m) implies ct_part@ == aead_ct_of(
            legacy_key(key@),
            n,
            encode_utf8(m),
        ) && nonce@ == n by {
            assert(blob@ == aead_ct_of(legacy_key(key@), n, encode_utf8(m)) + n);
            assert(ct_part@ =~= aead_ct_of(legacy_key(key@), n, encode_utf8(m)));
            assert(nonce@ =~= n);
        }
    }
    let plaintext_bytes = match aead_decrypt(crypt_key.as_slice(), nonce.as_slice(), ct_part.as_slice()) {
        Ok(v) => v,
        Err(_) => return Err(Error::Aead),
    };
    let plaintext = match crate::codec::bytes_to_string(plaintext_bytes) {
        Ok(s) => s,
        Err(_) => return Err(Error::Utf8),
    };
    proof {
        assert(ciphertext@ == legacy_blob(key@, nonce@, plaintext@)) by {
            assert(blob@ =~= ct_part@ + nonce@);
        }
    }
    Ok(plaintext)
}

} // verus!
