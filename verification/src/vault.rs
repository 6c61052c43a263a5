//! Asymmetric envelope encryption for journal entries.
//!
//! A key pair protects entry content at rest: anyone holding the public key
//! can seal an entry, and only the holder of the matching private key can
//! open it again. Keys are 32 raw bytes with a base-58 textual form; a
//! private key always carries the public key computed from it.

use vstd::prelude::*;
use vstd::slice::slice_to_vec;
use crate::codec::{base58_of, base58_decode_of, base58_encode, base58_decode, string_from_utf8};
use crate::sodium::{
    public_of, seed_secret_of, sealed_open_of,
    box_gen_keypair, box_keypair_from_seed, box_public_key,
    sealedbox_seal, sealedbox_open,
    PUBLIC_KEY_LEN, SECRET_KEY_LEN, SEED_LEN, SEALED_OVERHEAD,
};

verus! {

/// Why a piece of key material was rejected: the text was not valid
/// base-58, or the raw bytes had the wrong length.
#[derive(Clone, Copy, Debug, PartialEq, Eq)]
pub enum MalformedKeyMaterial {
    InvalidEncoding,
    WrongByteLength,
}

/// A ciphertext could not be decrypted: it is malformed, was tampered
/// with, or was not produced for this key.
#[derive(Clone, Copy, Debug, PartialEq, Eq)]
pub struct DecryptFailure;

/// What decrypting ciphertext `c` with private key `sk` yields: the
/// plaintext when `c` was sealed for `sk`'s public key, `None` otherwise.
pub open spec fn spec_decrypt(sk: Seq<u8>, c: Seq<u8>) -> Option<Seq<u8>> {
    sealed_open_of(c, public_of(sk), sk)
}

/// What decrypting `c` with `sk` and reading the plaintext as UTF-8 text
/// yields; `None` when decryption fails or the plaintext is not UTF-8.
pub open spec fn spec_decrypt_text(sk: Seq<u8>, c: Seq<u8>) -> Option<Seq<char>> {
    match spec_decrypt(sk, c) {
        Some(m) => if vstd::utf8::valid_utf8(m) {
            Some(vstd::utf8::decode_utf8(m))
        } else {
            None
        },
        None => None,
    }
}

/// Law: key derivation is deterministic — any two private keys derived
/// from the same seed are the same key, and so are their public halves.
pub proof fn lemma_derive_deterministic(seed: Seq<u8>, k1: Seq<u8>, k2: Seq<u8>)
    requires
        k1 == seed_secret_of(seed),
        k2 == seed_secret_of(seed),
    ensures
        k1 == k2,
        public_of(k1) == public_of(k2),
{
}

/// The public half of a key pair: enough to seal entries, never to open
/// them. Its view is the raw 32 key bytes.
pub struct SealedBoxPublicKey {
    bytes: Vec<u8>,
}

impl View for SealedBoxPublicKey {
    type V = Seq<u8>;

    closed spec fn view(&self) -> Seq<u8> {
        self.bytes@
    }
}

impl SealedBoxPublicKey {
    #[verifier::type_invariant]
    spec fn wf(self) -> bool {
        self.bytes@.len() == PUBLIC_KEY_LEN
    }

    /// Accepts exactly 32 raw bytes as a public key.
    pub fn from_bytes(bytes: &[u8]) -> (r: Result<Self, MalformedKeyMaterial>)
        ensures
            bytes@.len() == PUBLIC_KEY_LEN ==> (r matches Ok(k) && k@ == bytes@),
            bytes@.len() != PUBLIC_KEY_LEN ==> r == Err::<Self, MalformedKeyMaterial>(
                MalformedKeyMaterial::WrongByteLength,
            ),
    {
        if bytes.len() == PUBLIC_KEY_LEN {
            Ok(SealedBoxPublicKey { bytes: slice_to_vec(bytes) })
        } else {
            Err(MalformedKeyMaterial::WrongByteLength)
        }
    }

    /// Parses the base-58 form of a public key; rejects text that does not
    /// decode, or decodes to the wrong number of bytes.
    pub fn from_base58(value: &str) -> (r: Result<Self, MalformedKeyMaterial>)
        ensures
            match r {
                Ok(k) => base58_decode_of(value@) matches Some(b) && b.len() == PUBLIC_KEY_LEN
                    && k@ == b,
                Err(MalformedKeyMaterial::InvalidEncoding) => base58_decode_of(value@) is None,
                Err(MalformedKeyMaterial::WrongByteLength) => base58_decode_of(value@)
                    matches Some(b) && b.len() != PUBLIC_KEY_LEN,
            },
    {
        match base58_decode(value) {
            Ok(b) => Self::from_bytes(b.as_slice()),
            Err(_) => Err(MalformedKeyMaterial::InvalidEncoding),
        }
    }

    /// Seals `bytes` so that only the holder of the matching private key can
    /// read them. Decrypting the result with any private key whose public
    /// half equals this key yields `bytes` again; the ciphertext is 48 bytes
    /// longer than the plaintext.
    pub fn encrypt(&self, bytes: &[u8]) -> (r: Vec<u8>)
        ensures
            r@.len() == bytes@.len() + SEALED_OVERHEAD,
            forall|sk: Seq<u8>|
                sk.len() == SECRET_KEY_LEN && public_of(sk) == self@
                    ==> #[trigger] spec_decrypt(sk, r@) == Some(bytes@),
    {
        proof {
            use_type_invariant(&*self);
        }
        sealedbox_seal(bytes, self.bytes.as_slice())
    }

    /// The canonical base-58 text of this key.
    pub fn to_base58(&self) -> (r: String)
        ensures
            r@ == base58_of(self@),
            base58_decode_of(r@) == Some(self@),
    {
        base58_encode(self.bytes.as_slice())
    }
}

impl PartialEq for SealedBoxPublicKey {
    /// Two public keys are equal exactly when their raw bytes are equal;
    /// this is the sole authorization predicate used at login.
    fn eq(&self, other: &Self) -> (r: bool) {
        let r = self.bytes == other.bytes;
        proof {
            assert(r == (self.bytes@ =~= other.bytes@));
        }
        r
    }
}

impl vstd::std_specs::cmp::PartialEqSpecImpl for SealedBoxPublicKey {
    open spec fn obeys_eq_spec() -> bool {
        true
    }

    open spec fn eq_spec(&self, other: &Self) -> bool {
        self@ == other@
    }
}

/// A full key pair: the 32 private key bytes (its view) together with the
/// public key computed from them. The private key never persists server
/// side; it is reconstructed from user input at each login.
pub struct SealedBoxPrivateKey {
    public_key: SealedBoxPublicKey,
    private_key: Vec<u8>,
}

impl View for SealedBoxPrivateKey {
    type V = Seq<u8>;

    closed spec fn view(&self) -> Seq<u8> {
        self.private_key@
    }
}

impl SealedBoxPrivateKey {
    #[verifier::type_invariant]
    spec fn wf(self) -> bool {
        self.private_key@.len() == SECRET_KEY_LEN && self.public_key@ == public_of(
            self.private_key@,
        )
    }

    /// Generates a fresh random key pair.
    pub fn generate() -> (r: Self)
        ensures
            r@.len() == SECRET_KEY_LEN,
    {
        let (pk, sk) = box_gen_keypair();
        SealedBoxPrivateKey { public_key: SealedBoxPublicKey { bytes: pk }, private_key: sk }
    }

    /// Accepts exactly 32 raw bytes as a private key and computes its
    /// public half.
    pub fn from_bytes(bytes: &[u8]) -> (r: Result<Self, MalformedKeyMaterial>)
        ensures
            bytes@.len() == SECRET_KEY_LEN ==> (r matches Ok(k) && k@ == bytes@),
            bytes@.len() != SECRET_KEY_LEN ==> r == Err::<Self, MalformedKeyMaterial>(
                MalformedKeyMaterial::WrongByteLength,
            ),
    {
        if bytes.len() == SECRET_KEY_LEN {
            let pk = box_public_key(bytes);
            Ok(SealedBoxPrivateKey {
                public_key: SealedBoxPublicKey { bytes: pk },
                private_key: slice_to_vec(bytes),
            })
        } else {
            Err(MalformedKeyMaterial::WrongByteLength)
        }
    }

    /// Parses the base-58 form of a private key; rejects text that does not
    /// decode, or decodes to the wrong number of bytes.
    pub fn from_base58(value: &str) -> (r: Result<Self, MalformedKeyMaterial>)
        ensures
            match r {
                Ok(k) => base58_decode_of(value@) matches Some(b) && b.len() == SECRET_KEY_LEN
                    && k@ == b,
                Err(MalformedKeyMaterial::InvalidEncoding) => base58_decode_of(value@) is None,
                Err(MalformedKeyMaterial::WrongByteLength) => base58_decode_of(value@)
                    matches Some(b) && b.len() != SECRET_KEY_LEN,
            },
    {
        match base58_decode(value) {
            Ok(b) => Self::from_bytes(b.as_slice()),
            Err(_) => Err(MalformedKeyMaterial::InvalidEncoding),
        }
    }

    /// Derives the key pair from a 32-byte seed, base-58 encoded. The same
    /// seed always yields the same pair. This supports a legacy path where
    /// the seed, not the private key, was handed out as the password.
    pub fn from_base58_seed(value: &str) -> (r: Result<Self, MalformedKeyMaterial>)
        ensures
            match r {
                Ok(k) => base58_decode_of(value@) matches Some(s) && s.len() == SEED_LEN
                    && k@ == seed_secret_of(s),
                Err(MalformedKeyMaterial::InvalidEncoding) => base58_decode_of(value@) is None,
                Err(MalformedKeyMaterial::WrongByteLength) => base58_decode_of(value@)
                    matches Some(s) && s.len() != SEED_LEN,
            },
    {
        match base58_decode(value) {
            Ok(b) => {
                if b.len() == SEED_LEN {
                    let (pk, sk) = box_keypair_from_seed(b.as_slice());
                    Ok(SealedBoxPrivateKey {
                        public_key: SealedBoxPublicKey { bytes: pk },
                        private_key: sk,
                    })
                } else {
                    Err(MalformedKeyMaterial::WrongByteLength)
                }
            },
            Err(_) => Err(MalformedKeyMaterial::InvalidEncoding),
        }
    }

    /// The public half of this key pair.
    pub fn public(&self) -> (r: &SealedBoxPublicKey)
        ensures
            r@ == public_of(self@),
    {
        proof {
            use_type_invariant(&*self);
        }
        &self.public_key
    }

    /// Opens a ciphertext sealed for this key pair; fails on anything that
    /// is malformed, tampered with, or sealed for another key.
    pub fn decrypt(&self, bytes: &[u8]) -> (r: Result<Vec<u8>, DecryptFailure>)
        ensures
            match r {
                Ok(m) => spec_decrypt(self@, bytes@) == Some(m@),
                Err(_) => spec_decrypt(self@, bytes@) is None,
            },
    {
        proof {
            use_type_invariant(&*self);
            use_type_invariant(&self.public_key);
        }
        match sealedbox_open(bytes, self.public_key.bytes.as_slice(), self.private_key.as_slice()) {
            Ok(m) => Ok(m),
            Err(_) => Err(DecryptFailure),
        }
    }

    /// Opens a ciphertext sealed for this key pair and reads the plaintext
    /// as UTF-8 text; a plaintext that is not UTF-8 is as unreadable as a
    /// ciphertext that does not open.
    pub fn decrypt_string(&self, bytes: &[u8]) -> (r: Result<String, DecryptFailure>)
        ensures
            match r {
                Ok(s) => spec_decrypt_text(self@, bytes@) == Some(s@),
                Err(_) => spec_decrypt_text(self@, bytes@) is None,
            },
    {
        match self.decrypt(bytes) {
            Ok(m) => match string_from_utf8(m) {
                Ok(s) => Ok(s),
                Err(_) => Err(DecryptFailure),
            },
            Err(e) => Err(e),
        }
    }

    /// The raw private key bytes.
    pub fn bytes(&self) -> (r: &[u8])
        ensures
            r@ == self@,
            r@.len() == SECRET_KEY_LEN,
    {
        proof {
            use_type_invariant(&*self);
        }
        self.private_key.as_slice()
    }

    /// The canonical base-58 text of the private key.
    pub fn to_base58(&self) -> (r: String)
        ensures
            r@ == base58_of(self@),
            base58_decode_of(r@) == Some(self@),
    {
        base58_encode(self.private_key.as_slice())
    }
}

} // verus!
