//! Trusted boundary around the `sodiumoxide` primitives this crate builds on.
//!
//! Each function here wraps exactly one call into `sodiumoxide` and states, as
//! its contract, what that crate's source and documentation promise. Key and
//! nonce material crosses this boundary as plain byte vectors; the opaque
//! results of the primitives are named by uninterpreted spec functions.

use vstd::prelude::*;

verus! {

/// Bytes in a symmetric secretbox key.
pub const SECRETBOX_KEY_LEN: usize = 32;

/// Bytes in a secretbox nonce.
pub const SECRETBOX_NONCE_LEN: usize = 24;

/// Bytes a secretbox ciphertext is longer than its plaintext (the tag).
pub const SECRETBOX_MAC_LEN: usize = 16;

/// Bytes in a box public key.
pub const PUBLIC_KEY_LEN: usize = 32;

/// Bytes in a box secret key.
pub const SECRET_KEY_LEN: usize = 32;

/// Bytes in a key-pair derivation seed.
pub const SEED_LEN: usize = 32;

/// Bytes a sealed-box ciphertext is longer than its plaintext
/// (the ephemeral public key and the tag).
pub const SEALED_OVERHEAD: usize = 48;

/// The public key that corresponds to the secret key `sk`
/// (the result of `box_::SecretKey::public_key`).
pub uninterp spec fn public_of(sk: Seq<u8>) -> Seq<u8>;

/// The secret key that `box_::keypair_from_seed` derives from `seed`.
pub uninterp spec fn seed_secret_of(seed: Seq<u8>) -> Seq<u8>;

/// What `sealedbox::open` returns for ciphertext `c` under the key pair
/// `(pk, sk)`: the recovered plaintext, or `None` when opening fails.
pub uninterp spec fn sealed_open_of(c: Seq<u8>, pk: Seq<u8>, sk: Seq<u8>) -> Option<Seq<u8>>;

/// The ciphertext `secretbox::seal` produces for plaintext `m` under
/// nonce `n` and key `k`.
pub uninterp spec fn secretbox_sealed_of(m: Seq<u8>, n: Seq<u8>, k: Seq<u8>) -> Seq<u8>;

/// What `secretbox::open` returns for ciphertext `c` under nonce `n` and
/// key `k`: the recovered plaintext, or `None` when authentication fails.
pub uninterp spec fn secretbox_open_of(c: Seq<u8>, n: Seq<u8>, k: Seq<u8>) -> Option<Seq<u8>>;

/// Relies on `secretbox::gen_key`: a random 32-byte symmetric key.
#[verifier::external_body]
pub(crate) fn secretbox_gen_key() -> (r: Vec<u8>)
    ensures
        r@.len() == SECRETBOX_KEY_LEN,
{
    let key = sodiumoxide::crypto::secretbox::gen_key();
    key.as_ref().to_vec()
}

/// Relies on `secretbox::gen_nonce`: a random 24-byte nonce.
#[verifier::external_body]
pub(crate) fn secretbox_gen_nonce() -> (r: Vec<u8>)
    ensures
        r@.len() == SECRETBOX_NONCE_LEN,
{
    let nonce = sodiumoxide::crypto::secretbox::gen_nonce();
    nonce.as_ref().to_vec()
}

/// Relies on `secretbox::seal`: authenticated encryption of `m` under nonce
/// `n` and key `k`. The ciphertext is `m.len() + 16` bytes, is a function of
/// `(m, n, k)` alone, and `secretbox::open` recovers `m` from it under the
/// same nonce and key.
#[verifier::external_body]
pub(crate) fn secretbox_seal(m: &[u8], n: &[u8], k: &[u8]) -> (r: Vec<u8>)
    requires
        n@.len() == SECRETBOX_NONCE_LEN,
        k@.len() == SECRETBOX_KEY_LEN,
    ensures
        r@ == secretbox_sealed_of(m@, n@, k@),
        r@.len() == m@.len() + SECRETBOX_MAC_LEN,
        secretbox_open_of(r@, n@, k@) == Some(m@),
{
    let n = sodiumoxide::crypto::secretbox::Nonce::from_slice(n).unwrap();
    let k = sodiumoxide::crypto::secretbox::Key::from_slice(k).unwrap();
    sodiumoxide::crypto::secretbox::seal(m, &n, &k)
}

/// Relies on `secretbox::open`: authenticated decryption of `c` under nonce
/// `n` and key `k`. It fails on any ciphertext shorter than the 16-byte tag
/// or that does not authenticate; on success the plaintext is 16 bytes
/// shorter than the ciphertext.
#[verifier::external_body]
pub(crate) fn secretbox_open(c: &[u8], n: &[u8], k: &[u8]) -> (r: Result<Vec<u8>, ()>)
    requires
        n@.len() == SECRETBOX_NONCE_LEN,
        k@.len() == SECRETBOX_KEY_LEN,
    ensures
        match r {
            Ok(m) => secretbox_open_of(c@, n@, k@) == Some(m@)
                && m@.len() + SECRETBOX_MAC_LEN == c@.len(),
            Err(_) => secretbox_open_of(c@, n@, k@) is None,
        },
        c@.len() < SECRETBOX_MAC_LEN ==> r is Err,
{
    let n = sodiumoxide::crypto::secretbox::Nonce::from_slice(n).unwrap();
    let k = sodiumoxide::crypto::secretbox::Key::from_slice(k).unwrap();
    sodiumoxide::crypto::secretbox::open(c, &n, &k)
}

/// Relies on `box_::gen_keypair`: a random secret key together with its
/// corresponding public key.
#[verifier::external_body]
pub(crate) fn box_gen_keypair() -> (r: (Vec<u8>, Vec<u8>))
    ensures
        r.0@.len() == PUBLIC_KEY_LEN,
        r.1@.len() == SECRET_KEY_LEN,
        r.0@ == public_of(r.1@),
{
    let (pk, sk) = sodiumoxide::crypto::box_::gen_keypair();
    (pk.as_ref().to_vec(), sk.as_ref().to_vec())
}

/// Relies on `box_::keypair_from_seed`: the key pair deterministically
/// derived from a 32-byte seed; the public half corresponds to the secret
/// half.
#[verifier::external_body]
pub(crate) fn box_keypair_from_seed(seed: &[u8]) -> (r: (Vec<u8>, Vec<u8>))
    requires
        seed@.len() == SEED_LEN,
    ensures
        r.0@.len() == PUBLIC_KEY_LEN,
        r.1@.len() == SECRET_KEY_LEN,
        r.1@ == seed_secret_of(seed@),
        r.0@ == public_of(r.1@),
{
    let seed = sodiumoxide::crypto::box_::Seed::from_slice(seed).unwrap();
    let (pk, sk) = sodiumoxide::crypto::box_::keypair_from_seed(&seed);
    (pk.as_ref().to_vec(), sk.as_ref().to_vec())
}

/// Relies on `box_::SecretKey::public_key`: the public key computed from a
/// secret key, a function of the secret key bytes alone.
#[verifier::external_body]
pub(crate) fn box_public_key(sk: &[u8]) -> (r: Vec<u8>)
    requires
        sk@.len() == SECRET_KEY_LEN,
    ensures
        r@ == public_of(sk@),
        r@.len() == PUBLIC_KEY_LEN,
{
    let sk = sodiumoxide::crypto::box_::SecretKey::from_slice(sk).unwrap();
    sk.public_key().as_ref().to_vec()
}

/// Relies on `sealedbox::seal`: anonymous public-key encryption of `m` for
/// the holder of the secret key matching `pk`. The ciphertext is
/// `m.len() + 48` bytes, and `sealedbox::open` recovers `m` from it under
/// any key pair whose public half is `pk`.
#[verifier::external_body]
pub(crate) fn sealedbox_seal(m: &[u8], pk: &[u8]) -> (r: Vec<u8>)
    requires
        pk@.len() == PUBLIC_KEY_LEN,
    ensures
        r@.len() == m@.len() + SEALED_OVERHEAD,
        forall|sk: Seq<u8>|
            sk.len() == SECRET_KEY_LEN && public_of(sk) == pk@
                ==> #[trigger] sealed_open_of(r@, pk@, sk) == Some(m@),
{
    let pk = sodiumoxide::crypto::box_::PublicKey::from_slice(pk).unwrap();
    sodiumoxide::crypto::sealedbox::seal(m, &pk)
}

/// Relies on `sealedbox::open`: decryption of a sealed box under the key
/// pair `(pk, sk)`. It fails on any ciphertext shorter than the 48-byte
/// overhead; on success the plaintext is 48 bytes shorter than the
/// ciphertext.
#[verifier::external_body]
pub(crate) fn sealedbox_open(c: &[u8], pk: &[u8], sk: &[u8]) -> (r: Result<Vec<u8>, ()>)
    requires
        pk@.len() == PUBLIC_KEY_LEN,
        sk@.len() == SECRET_KEY_LEN,
    ensures
        match r {
            Ok(m) => sealed_open_of(c@, pk@, sk@) == Some(m@)
                && m@.len() + SEALED_OVERHEAD == c@.len(),
            Err(_) => sealed_open_of(c@, pk@, sk@) is None,
        },
        c@.len() < SEALED_OVERHEAD ==> r is Err,
{
    let pk = sodiumoxide::crypto::box_::PublicKey::from_slice(pk).unwrap();
    let sk = sodiumoxide::crypto::box_::SecretKey::from_slice(sk).unwrap();
    sodiumoxide::crypto::sealedbox::open(c, &pk, &sk)
}

} // verus!
