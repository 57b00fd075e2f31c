//! The cryptographic primitives of the TLS 1.2 client, each a call into the
//! crate that implements it, and the TLS 1.2 PRF built on HMAC-SHA-256.
use vstd::prelude::*;
use aes_gcm::aead::AeadInPlace;
use aes_gcm::{Aes128Gcm, Key, KeyInit, Nonce};
use hmac::{Hmac, Mac};
use sha2::{Digest, Sha256};

verus! {

/// SHA-256 of a byte string (32 bytes).
pub uninterp spec fn sha256_of(data: Seq<u8>) -> Seq<u8>;

/// HMAC-SHA-256 of `msg` under `key` (32 bytes).
pub uninterp spec fn hmac_sha256_of(key: Seq<u8>, msg: Seq<u8>) -> Seq<u8>;

/// AES-128-GCM sealing of `pt`: the ciphertext followed by the 16-byte tag.
pub uninterp spec fn aes128gcm_seal_of(key: Seq<u8>, nonce: Seq<u8>, aad: Seq<u8>, pt: Seq<u8>) -> Seq<u8>;

/// AES-128-GCM opening of `ct` (ciphertext and tag): the plaintext, or none
/// where the tag does not authenticate.
pub uninterp spec fn aes128gcm_open_of(key: Seq<u8>, nonce: Seq<u8>, aad: Seq<u8>, ct: Seq<u8>) -> Option<Seq<u8>>;

/// The X25519 function of RFC 7748 on a scalar and a u-coordinate.
pub uninterp spec fn x25519_of(k: Seq<u8>, u: Seq<u8>) -> Seq<u8>;

/// The uncompressed SEC1 encoding of the P-256 public key whose secret scalar
/// has the big-endian bytes `k`; none where `k` is zero or not below the
/// group order.
pub uninterp spec fn p256_public_of(k: Seq<u8>) -> Option<Seq<u8>>;

/// The P-256 ECDH shared secret (the x-coordinate) of the secret scalar `k`
/// and the SEC1-encoded public point `peer`; none where either is invalid.
pub uninterp spec fn p256_ecdh_of(k: Seq<u8>, peer: Seq<u8>) -> Option<Seq<u8>>;

/// `sha2::Sha256::digest`: the 32-byte digest of `data`.
#[verifier::external_body]
pub(crate) fn sha256(data: &[u8]) -> (r: Vec<u8>)
    ensures
        r@ == sha256_of(data@),
        r@.len() == 32,
{
    Sha256::digest(data).to_vec()
}

/// `hmac::Hmac<Sha256>`: keyed with `key` (HMAC takes a key of any length, so
/// `new_from_slice` does not fail), fed `msg`, finalized to 32 bytes.
#[verifier::external_body]
pub(crate) fn hmac_sha256(key: &[u8], msg: &[u8]) -> (r: Vec<u8>)
    ensures
        r@ == hmac_sha256_of(key@, msg@),
        r@.len() == 32,
{
    let mut mac = <Hmac<Sha256> as Mac>::new_from_slice(key).unwrap();
    mac.update(msg);
    mac.finalize().into_bytes().to_vec()
}

/// `Aes128Gcm::encrypt_in_place` on a copy of `pt`: the ciphertext with the
/// 16-byte tag appended. The crate refuses only plaintext or associated data
/// longer than 2^36 bytes.
#[verifier::external_body]
pub(crate) fn aes128gcm_seal(key: &[u8], nonce: &[u8], aad: &[u8], pt: &[u8]) -> (r: Option<Vec<u8>>)
    requires
        key@.len() == 16,
        nonce@.len() == 12,
    ensures
        pt@.len() <= 0x10_0000_0000 && aad@.len() <= 0x10_0000_0000 ==> r is Some,
        r matches Some(c) ==> c@ == aes128gcm_seal_of(key@, nonce@, aad@, pt@) && c@.len() == pt@.len() + 16,
{
    let cipher = Aes128Gcm::new(Key::<Aes128Gcm>::from_slice(key));
    let mut buf = pt.to_vec();
    match cipher.encrypt_in_place(Nonce::from_slice(nonce), aad, &mut buf) {
        Ok(()) => Some(buf),
        Err(_) => None,
    }
}

/// `Aes128Gcm::decrypt_in_place` on a copy of `ct`: the plaintext, the tag
/// removed, or none where the tag does not authenticate (or `ct` is shorter
/// than a tag).
#[verifier::external_body]
pub(crate) fn aes128gcm_open(key: &[u8], nonce: &[u8], aad: &[u8], ct: &[u8]) -> (r: Option<Vec<u8>>)
    requires
        key@.len() == 16,
        nonce@.len() == 12,
    ensures
        match r {
            Some(p) => aes128gcm_open_of(key@, nonce@, aad@, ct@) == Some(p@) && p@.len() + 16 == ct@.len(),
            None => aes128gcm_open_of(key@, nonce@, aad@, ct@) is None,
        },
        ct@.len() < 16 ==> r is None,
{
    let cipher = Aes128Gcm::new(Key::<Aes128Gcm>::from_slice(key));
    let mut buf = ct.to_vec();
    match cipher.decrypt_in_place(Nonce::from_slice(nonce), aad, &mut buf) {
        Ok(()) => Some(buf),
        Err(_) => None,
    }
}

/// `x25519_dalek::x25519`: the clamped scalar `k` times the point with
/// u-coordinate `u`, 32 bytes.
#[verifier::external_body]
pub(crate) fn x25519(k: [u8; 32], u: [u8; 32]) -> (r: [u8; 32])
    ensures
        r@ == x25519_of(k@, u@),
{
    x25519_dalek::x25519(k, u)
}

/// `p256::SecretKey::from_bytes` and, where that accepts `k`, the public
/// key's uncompressed SEC1 encoding (`EncodedPoint::from`, 65 bytes).
#[verifier::external_body]
pub(crate) fn p256_public_key(k: &[u8; 32]) -> (r: Option<Vec<u8>>)
    ensures
        match r {
            Some(v) => p256_public_of(k@) == Some(v@) && v@.len() == 65,
            None => p256_public_of(k@) is None,
        },
{
    match p256::SecretKey::from_bytes(&(*k).into()) {
        Ok(sk) => Some(p256::EncodedPoint::from(&sk.public_key()).as_bytes().to_vec()),
        Err(_) => None,
    }
}

/// `p256::PublicKey::from_sec1_bytes` on `peer`, then
/// `p256::ecdh::diffie_hellman` with the secret scalar `k`: the raw shared
/// secret, 32 bytes.
#[verifier::external_body]
pub(crate) fn p256_ecdh(k: &[u8; 32], peer: &[u8]) -> (r: Option<Vec<u8>>)
    ensures
        match r {
            Some(s) => p256_ecdh_of(k@, peer@) == Some(s@) && s@.len() == 32,
            None => p256_ecdh_of(k@, peer@) is None,
        },
{
    let sk = match p256::SecretKey::from_bytes(&(*k).into()) {
        Ok(sk) => sk,
        Err(_) => return None,
    };
    let pk = match p256::PublicKey::from_sec1_bytes(peer) {
        Ok(pk) => pk,
        Err(_) => return None,
    };
    let shared = p256::ecdh::diffie_hellman(sk.to_nonzero_scalar(), pk.as_affine());
    Some(shared.raw_secret_bytes().to_vec())
}

/// A(i) of the P_hash construction: A(0) is the seed, A(i) the HMAC of A(i-1).
pub open spec fn phash_a(secret: Seq<u8>, seed: Seq<u8>, i: nat) -> Seq<u8>
    decreases i,
{
    if i == 0 {
        seed
    } else {
        hmac_sha256_of(secret, phash_a(secret, seed, (i - 1) as nat))
    }
}

/// The first `n` output blocks of P_hash: block i is HMAC(secret, A(i) + seed).
pub open spec fn phash_blocks(secret: Seq<u8>, seed: Seq<u8>, n: nat) -> Seq<u8>
    decreases n,
{
    if n == 0 {
        Seq::empty()
    } else {
        phash_blocks(secret, seed, (n - 1) as nat) + hmac_sha256_of(secret, phash_a(secret, seed, n) + seed)
    }
}

/// P_SHA256(secret, seed) cut to `len` bytes.
pub open spec fn p_hash(secret: Seq<u8>, seed: Seq<u8>, len: nat) -> Seq<u8> {
    phash_blocks(secret, seed, ((len + 31) / 32) as nat).take(len as int)
}

/// The TLS 1.2 PRF: P_SHA256(secret, label + seed) cut to `len` bytes.
pub open spec fn prf(secret: Seq<u8>, label: Seq<u8>, seed: Seq<u8>, len: nat) -> Seq<u8> {
    p_hash(secret, label + seed, len)
}

/// `a` followed by `b`.
pub fn concat(a: &[u8], b: &[u8]) -> (r: Vec<u8>)
    ensures
        r@ == a@ + b@,
{
    let mut out: Vec<u8> = Vec::new();
    crate::fmt::push_bytes(&mut out, a);
    crate::fmt::push_bytes(&mut out, b);
    out
}

/// P_SHA256(secret, seed), `len` bytes of it.
pub fn p_hash_sha256(secret: &[u8], seed: &[u8], len: usize) -> (r: Vec<u8>)
    requires
        len + 32 <= usize::MAX,
    ensures
        r@ == p_hash(secret@, seed@, len as nat),
        r@.len() == len,
{
    let mut a = hmac_sha256(secret, seed);
    let mut out: Vec<u8> = Vec::new();
    let ghost mut k: nat = 0;
    proof {
        reveal_with_fuel(phash_a, 2);
        assert(a@ == phash_a(secret@, seed@, 1));
    }
    while out.len() < len
        invariant
            out@ == phash_blocks(secret@, seed@, k),
            out@.len() == 32 * k,
            32 * k < len + 32,
            len + 32 <= usize::MAX,
            a@ == phash_a(secret@, seed@, k + 1),
        decreases len + 32 - out@.len(),
    {
        let msg = concat(a.as_slice(), seed);
        let block = hmac_sha256(secret, msg.as_slice());
        crate::fmt::push_bytes(&mut out, block.as_slice());
        a = hmac_sha256(secret, a.as_slice());
        proof {
            k = k + 1;
        }
    }
    assert(k == (len + 31) / 32);
    out.truncate(len);
    out
}

/// The TLS 1.2 PRF with SHA-256: `len` bytes of P_SHA256(secret, label + seed).
pub fn prf_sha256(secret: &[u8], label: &[u8], seed: &[u8], len: usize) -> (r: Vec<u8>)
    requires
        len + 32 <= usize::MAX,
    ensures
        r@ == prf(secret@, label@, seed@, len as nat),
        r@.len() == len,
{
    let combined = concat(label, seed);
    p_hash_sha256(secret, combined.as_slice(), len)
}

} // verus!
