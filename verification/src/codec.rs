//! Wire codec: standard Base64 (with padding) for key material and
//! ciphertext fields, and UTF-8 conversion between strings and bytes.

use vstd::prelude::*;

verus! {

use crate::util::Error;

/// The canonical standard Base64 (padded) encoding of a byte sequence, as
/// produced by base64's `STANDARD` engine.
pub uninterp spec fn b64_of(bytes: Seq<u8>) -> Seq<char>;

/// Whether a string is the canonical Base64 encoding of some byte sequence.
pub open spec fn b64_decodable(s: Seq<char>) -> bool {
    exists|b: Seq<u8>| s == b64_of(b)
}

/// The byte sequence a canonical Base64 string encodes.
pub open spec fn b64_val(s: Seq<char>) -> Seq<u8> {
    choose|b: Seq<u8>| s == b64_of(b)
}

/// Relies on base64's `STANDARD` engine: encoding yields the canonical
/// padded Base64 form of the input bytes; a canonical form determines its
/// bytes, so the value the result decodes to is the input itself.
#[verifier::external_body]
pub(crate) fn b64_encode(bytes: &[u8]) -> (r: String)
    ensures
        r@ == b64_of(bytes@),
        b64_val(r@) == bytes@,
{
    base64::Engine::encode(&base64::engine::general_purpose::STANDARD, bytes)
}

/// Relies on base64's `STANDARD` engine: decoding requires canonical
/// padding and rejects non-zero trailing bits, so it is the exact inverse
/// of encoding and succeeds precisely on canonical encodings.
#[verifier::external_body]
pub(crate) fn b64_decode(s: &str) -> (r: Result<Vec<u8>, Error>)
    ensures
        r is Ok ==> s@ == b64_of(r->Ok_0@),
        forall|b: Seq<u8>| s@ == b64_of(b) ==> r is Ok && r->Ok_0@ == b,
        r is Err ==> r->Err_0 == Error::Decode,
{
    match base64::Engine::decode(&base64::engine::general_purpose::STANDARD, s) {
        Ok(v) => Ok(v),
        Err(_) => Err(Error::Decode),
    }
}

/// Decode a Base64 string, pinning the result to the unique byte sequence
/// the string encodes.
pub(crate) fn b64_decode_val(s: &str) -> (r: Result<Vec<u8>, Error>)
    ensures
        r is Ok <==> b64_decodable(s@),
        r is Ok ==> r->Ok_0@ == b64_val(s@) && s@ == b64_of(b64_val(s@)),
        r is Err ==> r->Err_0 == Error::Decode,
{
    let d = b64_decode(s);
    proof {
        if d is Ok {
            assert(s@ == b64_of(d->Ok_0@));
            assert(b64_decodable(s@));
            assert(s@ == b64_of(b64_val(s@)));
        } else {
            assert(!b64_decodable(s@)) by {
                if (exists|b: Seq<u8>| s@ == b64_of(b)) {
                    let b = choose|b: Seq<u8>| s@ == b64_of(b);
                    assert(d is Ok);
                }
            }
        }
    }
    match d {
        Ok(v) => Ok(v),
        Err(_) => Err(Error::Decode),
    }
}

/// Relies on `String::from_utf8`: succeeds exactly on valid UTF-8 input
/// and returns its decoding.
#[verifier::external_body]
pub(crate) fn bytes_to_string(v: Vec<u8>) -> (r: Result<String, Error>)
    ensures
        r is Ok <==> vstd::utf8::valid_utf8(v@),
        r is Ok ==> r->Ok_0@ == vstd::utf8::decode_utf8(v@),
        r is Err ==> r->Err_0 == Error::Utf8,
{
    match String::from_utf8(v) {
        Ok(s) => Ok(s),
        Err(_) => Err(Error::Utf8),
    }
}

/// Relies on `str` equality: two string slices compare equal exactly when
/// their character sequences do.
#[verifier::external_body]
pub(crate) fn str_eq(a: &str, b: &str) -> (r: bool)
    ensures
        r == (a@ == b@),
{
    a == b
}

/// Copy a byte slice into a fresh vector.
pub(crate) fn copy_bytes(src: &[u8]) -> (r: Vec<u8>)
    ensures
        r@ == src@,
{
    let mut r: Vec<u8> = Vec::new();
    let mut i: usize = 0;
    while i < src.len()
        invariant
            i <= src@.len(),
            r@ == src@.take(i as int),
        decreases src@.len() - i,
    {
        r.push(src[i]);
        proof {
            assert(r@ =~= src@.take(i + 1));
        }
        i = i + 1;
    }
    proof {
        assert(r@ =~= src@);
    }
    r
}

/// Append a byte slice to a vector.
pub(crate) fn append_bytes(dst: &mut Vec<u8>, src: &[u8])
    ensures
        final(dst)@ == old(dst)@ + src@,
{
    let mut i: usize = 0;
    while i < src.len()
        invariant
            i <= src@.len(),
            dst@ == old(dst)@ + src@.take(i as int),
        decreases src@.len() - i,
    {
        dst.push(src[i]);
        proof {
            assert(dst@ =~= old(dst)@ + src@.take(i + 1));
        }
        i = i + 1;
    }
    proof {
        assert(dst@ =~= old(dst)@ + src@);
    }
}

/// Whether two byte slices hold the same bytes.
pub(crate) fn bytes_eq(a: &[u8], b: &[u8]) -> (r: bool)
    ensures
        r == (a@ == b@),
{
    if a.len() != b.len() {
        return false;
    }
    let mut i: usize = 0;
    while i < a.len()
        invariant
            a@.len() == b@.len(),
            i <= a@.len(),
            forall|j: int| 0 <= j < i ==> a@[j] == b@[j],
        decreases a@.len() - i,
    {
        if a[i] != b[i] {
            return false;
        }
        i = i + 1;
    }
    proof {
        assert(a@ =~= b@);
    }
    true
}

/// A sequence of `n` zero bytes.
pub open spec fn zero_bytes(n: nat) -> Seq<u8> {
    Seq::new(n, |i: int| 0u8)
}

/// A vector of `n` zero bytes.
pub(crate) fn zeros(n: usize) -> (r: Vec<u8>)
    ensures
        r@ == zero_bytes(n as nat),
{
    let mut r: Vec<u8> = Vec::new();
    let mut i: usize = 0;
    while i < n
        invariant
            i <= n,
            r@ == zero_bytes(i as nat),
        decreases n - i,
    {
        r.push(0u8);
        proof {
            assert(r@ =~= zero_bytes((i + 1) as nat));
        }
        i = i + 1;
    }
    r
}

/// The first `n` bytes of a slice.
pub(crate) fn take_prefix(src: &[u8], n: usize) -> (r: Vec<u8>)
    requires
        n <= src@.len(),
    ensures
        r@ == src@.take(n as int),
{
    let mut r: Vec<u8> = Vec::new();
    let mut i: usize = 0;
    while i < n
        invariant
            n <= src@.len(),
            i <= n,
            r@ == src@.take(i as int),
        decreases n - i,
    {
        r.push(src[i]);
        proof {
            assert(r@ =~= src@.take(i + 1));
        }
        i = i + 1;
    }
    r
}

/// The bytes of a slice from position `n` on.
pub(crate) fn skip_prefix(src: &[u8], n: usize) -> (r: Vec<u8>)
    requires
        n <= src@.len(),
    ensures
        r@ == src@.skip(n as int),
{
    let mut r: Vec<u8> = Vec::new();
    let mut i: usize = n;
    while i < src.len()
        invariant
            n <= i <= src@.len(),
            r@ == src@.subrange(n as int, i as int),
        decreases src@.len() - i,
    {
        r.push(src[i]);
        proof {
            assert(r@ =~= src@.subrange(n as int, i + 1));
        }
        i = i + 1;
    }
    proof {
        assert(r@ =~= src@.skip(n as int));
    }
    r
}

} // verus!
