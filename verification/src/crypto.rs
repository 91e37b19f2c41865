//! The cryptographic primitives the handshake and transport paths rest on:
//! BLAKE2s hashing and keyed MAC, Curve25519 scalar multiplication, the
//! ChaCha20-Poly1305 AEAD and the system randomness source, each behind a
//! trusted wrapper, together with a verified HMAC and the Noise KDF chain.

use vstd::prelude::*;
use blake2::digest::Digest;
use blake2::digest::Mac;
use chacha20poly1305::aead::Aead;
use chacha20poly1305::aead::KeyInit;

verus! {

/// The 32-byte BLAKE2s digest of a byte string.
pub uninterp spec fn blake2s_of(data: Seq<u8>) -> Seq<u8>;

/// The 16-byte keyed BLAKE2s MAC of a byte string.
pub uninterp spec fn mac16_of(key: Seq<u8>, data: Seq<u8>) -> Seq<u8>;

/// The X25519 scalar multiplication of a (clamped) scalar and a point.
pub uninterp spec fn x25519_of(scalar: Seq<u8>, point: Seq<u8>) -> Seq<u8>;

/// The ChaCha20-Poly1305 ciphertext (tag appended) for a key, a nonce,
/// associated data and a plaintext.
pub uninterp spec fn seal_of(key: Seq<u8>, nonce: Seq<u8>, aad: Seq<u8>, pt: Seq<u8>) -> Seq<u8>;

/// The canonical Curve25519 base point.
pub open spec fn base_point() -> Seq<u8> {
    Seq::new(32, |i: int| if i == 0 { 9u8 } else { 0u8 })
}

/// Relies on `blake2::Blake2s256` (via `digest::Digest`): the 32-byte
/// BLAKE2s hash, a function of the input bytes alone.
#[verifier::external_body]
pub(crate) fn blake2s(data: &[u8]) -> (r: [u8; 32])
    ensures
        r@ == blake2s_of(data@) && r@.len() == 32,
{
    let out: [u8; 32] = blake2::Blake2s256::digest(data).into();
    out
}

/// Relies on `blake2::Blake2sMac` with a 16-byte output (via
/// `digest::Mac`): a keyed MAC, a function of key and input alone.
#[verifier::external_body]
pub(crate) fn blake2s_mac16(key: &[u8; 32], data: &[u8]) -> (r: [u8; 16])
    ensures
        r@ == mac16_of(key@, data@) && r@.len() == 16,
{
    let mut m = blake2::Blake2sMac::<blake2::digest::consts::U16>::new_from_slice(key)
        .expect("32-byte key fits the BLAKE2s key size");
    m.update(data);
    let out: [u8; 16] = m.finalize().into_bytes().into();
    out
}

/// Relies on `x25519_dalek::x25519`: Curve25519 scalar multiplication, a
/// function of scalar and point alone.  The last clause is the documented
/// Diffie-Hellman property: the two orders of an exchange agree.
#[verifier::external_body]
pub(crate) fn x25519(scalar: &[u8; 32], point: &[u8; 32]) -> (r: [u8; 32])
    ensures
        r@ == x25519_of(scalar@, point@) && r@.len() == 32,
        forall|other: Seq<u8>| point@ == x25519_of(other, base_point())
            ==> r@ == x25519_of(other, x25519_of(scalar@, base_point())),
{
    x25519_dalek::x25519(*scalar, *point)
}

/// Relies on `chacha20poly1305::ChaCha20Poly1305` (via `aead::Aead::encrypt`):
/// deterministic in key, nonce, associated data and plaintext; the result is
/// the ciphertext with its 16-byte tag appended.  The length bound keeps the
/// plaintext under the ChaCha20 block-counter limit, beyond which the cipher
/// itself refuses to encrypt.
#[verifier::external_body]
pub(crate) fn aead_seal(key: &[u8; 32], nonce: &[u8; 12], aad: &[u8], pt: &[u8]) -> (r: Vec<u8>)
    requires
        pt@.len() < 0x3F_FFFF_FFC0,
    ensures
        r@ == seal_of(key@, nonce@, aad@, pt@),
        r@.len() == pt@.len() + 16,
{
    let cipher = chacha20poly1305::ChaCha20Poly1305::new_from_slice(key)
        .expect("32-byte key fits the ChaCha20-Poly1305 key size");
    let n = chacha20poly1305::Nonce::from(*nonce);
    cipher.encrypt(&n, chacha20poly1305::aead::Payload { msg: pt, aad })
        .expect("plaintext within AEAD length bound")
}

/// Relies on `chacha20poly1305::ChaCha20Poly1305` (via `aead::Aead::decrypt`):
/// succeeds exactly on the ciphertexts that sealing with the same key, nonce
/// and associated data produces, and then returns the sealed plaintext.
#[verifier::external_body]
pub(crate) fn aead_open(key: &[u8; 32], nonce: &[u8; 12], aad: &[u8], ct: &[u8]) -> (r: Option<Vec<u8>>)
    ensures
        r is Some ==> ct@ == seal_of(key@, nonce@, aad@, r.unwrap()@)
            && r.unwrap()@.len() + 16 == ct@.len(),
        forall|pt: Seq<u8>| pt.len() < 0x3F_FFFF_FFC0
            && ct@ == seal_of(key@, nonce@, aad@, pt)
            ==> r is Some && r.unwrap()@ == pt,
{
    let cipher = chacha20poly1305::ChaCha20Poly1305::new_from_slice(key)
        .expect("32-byte key fits the ChaCha20-Poly1305 key size");
    let n = chacha20poly1305::Nonce::from(*nonce);
    cipher.decrypt(&n, chacha20poly1305::aead::Payload { msg: ct, aad }).ok()
}

/// Relies on `rand::random`: a fresh 32-byte secret.  Nothing is promised
/// of the value.
#[verifier::external_body]
pub(crate) fn random_bytes32() -> (r: [u8; 32]) {
    rand::random::<[u8; 32]>()
}

/// Relies on `rand::random`: a fresh candidate receiver index.  Nothing is
/// promised of the value.
#[verifier::external_body]
pub(crate) fn random_u32() -> (r: u32) {
    rand::random::<u32>()
}

/// The Curve25519 base point as bytes.
pub fn base_point_bytes() -> (r: [u8; 32])
    ensures r@ == base_point(),
{
    let mut out: [u8; 32] = [0; 32];
    out[0] = 9;
    proof {
        assert(out@ =~= base_point());
    }
    out
}

/// The HMAC-BLAKE2s pad: the 32-byte key, each byte xored with `pad`, then
/// filled with `pad` up to the 64-byte block.
pub open spec fn xor_pad(key: Seq<u8>, pad: u8) -> Seq<u8> {
    Seq::new(64, |i: int| if i < 32 { (key[i] ^ pad) as u8 } else { pad })
}

/// HMAC-BLAKE2s of a 32-byte key and a message (RFC 2104 over BLAKE2s).
pub open spec fn hmac_of(key: Seq<u8>, data: Seq<u8>) -> Seq<u8> {
    blake2s_of(xor_pad(key, 0x5c) + blake2s_of(xor_pad(key, 0x36) + data))
}

/// HMAC-BLAKE2s, written out over the hash: two nested keyed hashes.
pub fn hmac32(key: &[u8; 32], data: &[u8]) -> (r: [u8; 32])
    ensures
        r@ == hmac_of(key@, data@),
        r@.len() == 32,
{
    let mut inner: Vec<u8> = Vec::new();
    let mut i: usize = 0;
    while i < 32
        invariant
            i <= 32,
            inner@ == xor_pad(key@, 0x36).subrange(0, i as int),
        decreases 32 - i,
    {
        inner.push(key[i] ^ 0x36);
        i = i + 1;
        proof {
            assert(inner@ =~= xor_pad(key@, 0x36).subrange(0, i as int));
        }
    }
    while i < 64
        invariant
            32 <= i <= 64,
            inner@ == xor_pad(key@, 0x36).subrange(0, i as int),
        decreases 64 - i,
    {
        inner.push(0x36);
        i = i + 1;
        proof {
            assert(inner@ =~= xor_pad(key@, 0x36).subrange(0, i as int));
        }
    }
    proof {
        assert(xor_pad(key@, 0x36).subrange(0, 64) =~= xor_pad(key@, 0x36));
    }
    crate::bytes::push_all(&mut inner, data);
    let inner_hash = blake2s(inner.as_slice());

    let mut outer: Vec<u8> = Vec::new();
    let mut j: usize = 0;
    while j < 32
        invariant
            j <= 32,
            outer@ == xor_pad(key@, 0x5c).subrange(0, j as int),
        decreases 32 - j,
    {
        outer.push(key[j] ^ 0x5c);
        j = j + 1;
        proof {
            assert(outer@ =~= xor_pad(key@, 0x5c).subrange(0, j as int));
        }
    }
    while j < 64
        invariant
            32 <= j <= 64,
            outer@ == xor_pad(key@, 0x5c).subrange(0, j as int),
        decreases 64 - j,
    {
        outer.push(0x5c);
        j = j + 1;
        proof {
            assert(outer@ =~= xor_pad(key@, 0x5c).subrange(0, j as int));
        }
    }
    proof {
        assert(xor_pad(key@, 0x5c).subrange(0, 64) =~= xor_pad(key@, 0x5c));
    }
    crate::bytes::push_all(&mut outer, inner_hash.as_slice());
    blake2s(outer.as_slice())
}

/// First output block of the Noise KDF chain.
pub open spec fn kdf1_of(ck: Seq<u8>, input: Seq<u8>) -> Seq<u8> {
    hmac_of(hmac_of(ck, input), seq![1u8])
}

/// Second output block of the Noise KDF chain.
pub open spec fn kdf2_snd_of(ck: Seq<u8>, input: Seq<u8>) -> Seq<u8> {
    hmac_of(hmac_of(ck, input), kdf1_of(ck, input) + seq![2u8])
}

/// Third output block of the Noise KDF chain.
pub open spec fn kdf3_trd_of(ck: Seq<u8>, input: Seq<u8>) -> Seq<u8> {
    hmac_of(hmac_of(ck, input), kdf2_snd_of(ck, input) + seq![3u8])
}

/// One-output Noise KDF.
pub fn kdf1(ck: &[u8; 32], input: &[u8]) -> (r: [u8; 32])
    ensures r@ == kdf1_of(ck@, input@),
{
    let t0 = hmac32(ck, input);
    let one: [u8; 1] = [1];
    proof {
        assert(one@ =~= seq![1u8]);
    }
    hmac32(&t0, one.as_slice())
}

/// Two-output Noise KDF.
pub fn kdf2(ck: &[u8; 32], input: &[u8]) -> (r: ([u8; 32], [u8; 32]))
    ensures
        r.0@ == kdf1_of(ck@, input@),
        r.1@ == kdf2_snd_of(ck@, input@),
{
    let t0 = hmac32(ck, input);
    let one: [u8; 1] = [1];
    proof {
        assert(one@ =~= seq![1u8]);
    }
    let t1 = hmac32(&t0, one.as_slice());
    let mut buf: Vec<u8> = Vec::new();
    crate::bytes::push_all(&mut buf, t1.as_slice());
    buf.push(2);
    proof {
        assert(buf@ =~= kdf1_of(ck@, input@) + seq![2u8]);
    }
    let t2 = hmac32(&t0, buf.as_slice());
    (t1, t2)
}

/// Three-output Noise KDF.
pub fn kdf3(ck: &[u8; 32], input: &[u8]) -> (r: ([u8; 32], [u8; 32], [u8; 32]))
    ensures
        r.0@ == kdf1_of(ck@, input@),
        r.1@ == kdf2_snd_of(ck@, input@),
        r.2@ == kdf3_trd_of(ck@, input@),
{
    let t0 = hmac32(ck, input);
    let one: [u8; 1] = [1];
    proof {
        assert(one@ =~= seq![1u8]);
    }
    let t1 = hmac32(&t0, one.as_slice());
    let mut buf: Vec<u8> = Vec::new();
    crate::bytes::push_all(&mut buf, t1.as_slice());
    buf.push(2);
    proof {
        assert(buf@ =~= kdf1_of(ck@, input@) + seq![2u8]);
    }
    let t2 = hmac32(&t0, buf.as_slice());
    let mut buf3: Vec<u8> = Vec::new();
    crate::bytes::push_all(&mut buf3, t2.as_slice());
    buf3.push(3);
    proof {
        assert(buf3@ =~= kdf2_snd_of(ck@, input@) + seq![3u8]);
    }
    let t3 = hmac32(&t0, buf3.as_slice());
    (t1, t2, t3)
}

/// Compare two byte strings of any length; true exactly on equality.
pub fn bytes_eq(a: &[u8], b: &[u8]) -> (r: bool)
    ensures r == (a@ == b@),
{
    if a.len() != b.len() {
        proof {
            assert(a@ != b@);
        }
        return false;
    }
    let n = a.len();
    let mut i: usize = 0;
    while i < n
        invariant
            i <= n,
            n == a@.len() && n == b@.len(),
            forall|j: int| 0 <= j < i ==> a@[j] == b@[j],
        decreases n - i,
    {
        if a[i] != b[i] {
            proof {
                assert(a@[i as int] != b@[i as int]);
            }
            return false;
        }
        i = i + 1;
    }
    proof {
        assert(a@ =~= b@);
    }
    true
}

} // verus!
