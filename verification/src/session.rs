//! The ephemeral symmetric box that protects the private key while it
//! round-trips through the client as a session token.
//!
//! One key is generated per server process and never persists, so every
//! outstanding token dies with the process. A token is the fresh random
//! nonce followed by the authenticated ciphertext, as one opaque byte
//! string.

use vstd::prelude::*;
use vstd::slice::slice_subrange;
use crate::sodium::{
    secretbox_open_of, secretbox_sealed_of,
    secretbox_gen_key, secretbox_gen_nonce, secretbox_seal, secretbox_open,
    SECRETBOX_KEY_LEN, SECRETBOX_NONCE_LEN, SECRETBOX_MAC_LEN,
};
use crate::vault::DecryptFailure;

verus! {

/// What decrypting token `t` under session key `k` yields: the token is
/// split after the 24-byte nonce and the remainder is opened with it;
/// anything shorter than a nonce yields `None`.
pub open spec fn spec_open(k: Seq<u8>, t: Seq<u8>) -> Option<Seq<u8>> {
    if t.len() >= SECRETBOX_NONCE_LEN {
        secretbox_open_of(
            t.skip(SECRETBOX_NONCE_LEN as int),
            t.take(SECRETBOX_NONCE_LEN as int),
            k,
        )
    } else {
        None
    }
}

/// A process-lifetime symmetric key for authenticated encryption of small
/// byte strings. Its view is the raw 32 key bytes.
pub struct SecretBox {
    key: Vec<u8>,
}

impl View for SecretBox {
    type V = Seq<u8>;

    closed spec fn view(&self) -> Seq<u8> {
        self.key@
    }
}

impl SecretBox {
    #[verifier::type_invariant]
    spec fn wf(self) -> bool {
        self.key@.len() == SECRETBOX_KEY_LEN
    }

    /// Generates the one random key of this process's lifetime.
    pub fn generate() -> (r: Self)
        ensures
            r@.len() == SECRETBOX_KEY_LEN,
    {
        SecretBox { key: secretbox_gen_key() }
    }

    /// Seals `data` under a fresh random nonce and prepends that nonce, so
    /// the result is self-contained: decrypting it under the same key
    /// yields `data` again.
    pub fn encrypt(&self, data: &[u8]) -> (r: Vec<u8>)
        ensures
            r@.len() == data@.len() + SECRETBOX_NONCE_LEN + SECRETBOX_MAC_LEN,
            spec_open(self@, r@) == Some(data@),
            exists|n: Seq<u8>|
                n.len() == SECRETBOX_NONCE_LEN && r@ == #[trigger] n.add(
                    secretbox_sealed_of(data@, n, self@),
                ),
    {
        proof {
            use_type_invariant(&*self);
        }
        let nonce = secretbox_gen_nonce();
        let mut cipher = secretbox_seal(data, nonce.as_slice(), self.key.as_slice());
        let ghost n = nonce@;
        let ghost c = cipher@;
        let mut out = nonce;
        out.append(&mut cipher);
        proof {
            assert(out@.take(SECRETBOX_NONCE_LEN as int) =~= n);
            assert(out@.skip(SECRETBOX_NONCE_LEN as int) =~= c);
            assert(out@ == n.add(secretbox_sealed_of(data@, n, self@)));
        }
        out
    }

    /// Opens a token produced by `encrypt` under the same key. Tokens
    /// shorter than a nonce, tampered tokens and tokens sealed under a
    /// different key are rejected, never repaired.
    pub fn decrypt(&self, data: &[u8]) -> (r: Result<Vec<u8>, DecryptFailure>)
        ensures
            match r {
                Ok(m) => spec_open(self@, data@) == Some(m@),
                Err(_) => spec_open(self@, data@) is None,
            },
    {
        proof {
            use_type_invariant(&*self);
        }
        if data.len() < SECRETBOX_NONCE_LEN {
            return Err(DecryptFailure);
        }
        let nonce = slice_subrange(data, 0, SECRETBOX_NONCE_LEN);
        let cipher = slice_subrange(data, SECRETBOX_NONCE_LEN, data.len());
        proof {
            assert(nonce@ =~= data@.take(SECRETBOX_NONCE_LEN as int));
            assert(cipher@ =~= data@.skip(SECRETBOX_NONCE_LEN as int));
        }
        match secretbox_open(cipher, nonce, self.key.as_slice()) {
            Ok(m) => Ok(m),
            Err(_) => Err(DecryptFailure),
        }
    }
}

} // verus!
