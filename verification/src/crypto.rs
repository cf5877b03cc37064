//! Hashing, key derivation, authenticated encryption and constant-time
//! comparison, as the `sha2`, `argon2`, `chacha20poly1305` and `subtle`
//! crates compute them.
use vstd::prelude::*;

use argon2::{Algorithm, Argon2, Params, Version};
use chacha20poly1305::aead::{Aead, KeyInit, Payload};
use sha2::Digest;
use subtle::ConstantTimeEq;

verus! {

/// The SHA-256 digest of `data`.
pub uninterp spec fn sha256_of(data: Seq<u8>) -> Seq<u8>;

/// `sha2::Sha256::digest`: the SHA-256 digest, which is 32 bytes long.
#[verifier::external_body]
pub(crate) fn sha256(data: &[u8]) -> (r: Vec<u8>)
    ensures
        r@ == sha256_of(data@),
        r@.len() == 32,
{
    sha2::Sha256::digest(data).to_vec()
}

/// An incremental SHA-256 hasher (`sha2::Sha256`, whose type Verus cannot
/// declare), holding the bytes absorbed so far.
#[verifier::external_body]
pub struct IncrementalSha256 {
    inner: sha2::Sha256,
}

/// The bytes absorbed so far by an incremental SHA-256 hasher.
pub uninterp spec fn absorbed(h: IncrementalSha256) -> Seq<u8>;

/// `sha2::Sha256::new`: a hasher that has absorbed nothing.
#[verifier::external_body]
pub(crate) fn hasher_new() -> (h: IncrementalSha256)
    ensures
        absorbed(h) == Seq::<u8>::empty(),
{
    IncrementalSha256 { inner: sha2::Sha256::new() }
}

/// `Digest::update`: absorbs `data` after what came before.
#[verifier::external_body]
pub(crate) fn hasher_update(h: &mut IncrementalSha256, data: &[u8])
    ensures
        absorbed(*final(h)) == absorbed(*old(h)) + data@,
{
    h.inner.update(data);
}

/// `Digest::finalize`: the SHA-256 digest of everything absorbed.
#[verifier::external_body]
pub(crate) fn hasher_finish(h: IncrementalSha256) -> (r: Vec<u8>)
    ensures
        r@ == sha256_of(absorbed(h)),
        r@.len() == 32,
{
    h.inner.finalize().to_vec()
}

/// The 32-byte Argon2id (version 0x13) key for a password, salt and the
/// memory, iteration and parallelism costs (`None` when refused).
pub uninterp spec fn argon2id_key(
    password: Seq<u8>,
    salt: Seq<u8>,
    memory_kib: u32,
    iterations: u32,
    parallelism: u32,
) -> Option<Seq<u8>>;

/// `argon2::Params::new` with a 32-byte output, then
/// `Argon2::new(Argon2id, V0x13, params).hash_password_into`. Errors of
/// either call are reported as `None`. `Params::new` multiplies the
/// parallelism by 8 before it checks it against its maximum of `0xFF_FFFF`,
/// so a larger parallelism is not admitted here.
#[verifier::external_body]
pub(crate) fn argon2id_derive(
    password: &[u8],
    salt: &[u8],
    memory_kib: u32,
    iterations: u32,
    parallelism: u32,
) -> (r: Option<Vec<u8>>)
    requires
        parallelism <= 0xFF_FFFF,
    ensures
        match r {
            Some(k) => argon2id_key(password@, salt@, memory_kib, iterations, parallelism)
                == Some(k@) && k@.len() == 32,
            None => argon2id_key(password@, salt@, memory_kib, iterations, parallelism) is None,
        },
{
    let params = Params::new(memory_kib, iterations, parallelism, Some(32)).ok()?;
    let mut key = vec![0_u8; 32];
    Argon2::new(Algorithm::Argon2id, Version::V0x13, params)
        .hash_password_into(password, salt, &mut key)
        .ok()?;
    Some(key)
}

/// The ChaCha20-Poly1305 sealing of `message` with `aad` under a 32-byte key
/// and a 12-byte nonce.
pub uninterp spec fn aead_sealed(key: Seq<u8>, nonce: Seq<u8>, message: Seq<u8>, aad: Seq<u8>) -> Seq<u8>;

/// What ChaCha20-Poly1305 opening of `ciphertext` yields (`None` when the tag
/// does not authenticate it).
pub uninterp spec fn aead_opened(
    key: Seq<u8>,
    nonce: Seq<u8>,
    ciphertext: Seq<u8>,
    aad: Seq<u8>,
) -> Option<Seq<u8>>;

/// `ChaCha20Poly1305::new_from_slice(key)` then `encrypt` with a payload of
/// `message` and `aad`. The ciphertext carries a 16-byte tag, and opening it
/// with the same key, nonce and associated data gives `message` back. With a
/// 32-byte key, sealing fails only for a message of `u32::MAX` or more
/// 64-byte blocks.
#[verifier::external_body]
pub(crate) fn aead_seal(key: &[u8], nonce: &[u8], message: &[u8], aad: &[u8]) -> (r: Option<Vec<u8>>)
    requires
        key@.len() == 32,
        nonce@.len() == 12,
    ensures
        r is Some <==> message@.len() / 64 < 0xffff_ffff,
        r matches Some(c) ==> c@ == aead_sealed(key@, nonce@, message@, aad@) && c@.len()
            == message@.len() + 16,
        r matches Some(c) ==> aead_opened(key@, nonce@, c@, aad@) == Some(message@),
{
    let cipher = chacha20poly1305::ChaCha20Poly1305::new_from_slice(key).ok()?;
    let nonce = chacha20poly1305::Nonce::from_slice(nonce);
    cipher.encrypt(nonce, Payload { msg: message, aad }).ok()
}

/// `ChaCha20Poly1305::new_from_slice(key)` then `decrypt` with a payload of
/// `ciphertext` and `aad`: the message that was sealed with the same key,
/// nonce and associated data, or `None` when authentication fails.
#[verifier::external_body]
pub(crate) fn aead_open(key: &[u8], nonce: &[u8], ciphertext: &[u8], aad: &[u8]) -> (r: Option<Vec<u8>>)
    requires
        key@.len() == 32,
        nonce@.len() == 12,
    ensures
        match r {
            Some(m) => aead_opened(key@, nonce@, ciphertext@, aad@) == Some(m@),
            None => aead_opened(key@, nonce@, ciphertext@, aad@) is None,
        },
        forall|m: Seq<u8>|
            #[trigger] aead_sealed(key@, nonce@, m, aad@) == ciphertext@ ==> (r is Some && r->0@ == m),
{
    let cipher = chacha20poly1305::ChaCha20Poly1305::new_from_slice(key).ok()?;
    let nonce = chacha20poly1305::Nonce::from_slice(nonce);
    cipher.decrypt(nonce, Payload { msg: ciphertext, aad }).ok()
}

/// `subtle::ConstantTimeEq::ct_eq` on byte slices: equal lengths and bytes.
#[verifier::external_body]
pub(crate) fn ct_equal(a: &[u8], b: &[u8]) -> (r: bool)
    ensures
        r == (a@ == b@),
{
    a.ct_eq(b).unwrap_u8() == 1
}

} // verus!
