//! Login and per-request authorization.
//!
//! A request is anonymous until its token proves otherwise. Login turns the
//! user-supplied secret into a key pair, compares its public half against
//! the journal's public key, and on a match wraps the private-key bytes
//! under the process session key into an opaque base-58 token. Every later
//! request reconstructs its state from that token alone; any failure to do
//! so is the anonymous state, not an error.

use vstd::prelude::*;
use crate::codec::{base58_of, base58_decode_of, base58_encode, base58_decode};
use crate::session::{SecretBox, spec_open};
use crate::sodium::{public_of, seed_secret_of, SECRET_KEY_LEN, SEED_LEN};
use crate::store::{Entry, EntryStore, EntryView, ReadQuery, spec_page, spec_offset, spec_limit,
    spec_version_current};
use crate::vault::{spec_decrypt_text, SealedBoxPrivateKey, SealedBoxPublicKey, DecryptFailure};

verus! {

/// Why a login attempt was refused. In every refusal no token is issued
/// and nothing changes.
#[derive(Debug)]
pub enum LoginFailure {
    /// The submitted secret is not the journal's private key.
    InvalidSecret,
    /// The submitted secret is the seed the journal's key pair was once
    /// derived from, not the private key itself. The seed is not an
    /// accepted credential; the carried text is the base-58 private key
    /// the user should submit instead.
    SuppliedSeedInsteadOfKey { private_key: String },
}

/// Why the read path failed as a whole.
#[derive(Clone, Copy, Debug, PartialEq, Eq, Structural)]
pub enum ReadError {
    /// The store's schema version gate refused to operate.
    SchemaVersionMismatch,
    /// Some entry in the page could not be decrypted or read as text,
    /// which means corruption or a key mismatch the user must see.
    DecryptFailure,
}

/// The private key a secret logs in with: the secret must decode from
/// base-58 to 32 bytes whose public key is the journal's.
pub open spec fn spec_login_key(secret: Seq<char>, server_key: Seq<u8>) -> Option<Seq<u8>> {
    match base58_decode_of(secret) {
        Some(b) => if b.len() == SECRET_KEY_LEN && public_of(b) == server_key {
            Some(b)
        } else {
            None
        },
        None => None,
    }
}

/// Whether a secret is the 32-byte seed behind the journal's key pair.
pub open spec fn spec_login_is_seed(secret: Seq<char>, server_key: Seq<u8>) -> bool {
    base58_decode_of(secret) matches Some(s) && s.len() == SEED_LEN
        && public_of(seed_secret_of(s)) == server_key
}

/// The private-key bytes a token stands for under the session key `k`:
/// the token must decode from base-58, open under `k`, and hold exactly
/// 32 bytes.
pub open spec fn spec_authorize(k: Seq<u8>, token: Seq<char>) -> Option<Seq<u8>> {
    match base58_decode_of(token) {
        Some(c) => match spec_open(k, c) {
            Some(b) => if b.len() == SECRET_KEY_LEN {
                Some(b)
            } else {
                None
            },
            None => None,
        },
        None => None,
    }
}

/// The authorization state a request is in: anonymous, or holding the
/// private key its token wrapped. Read paths are only reachable from the
/// authenticated state.
pub enum AuthSession {
    Anonymous,
    Authenticated { private_key: SealedBoxPrivateKey },
}

impl AuthSession {
    /// Whether this request carries the private key.
    pub fn logged_in(&self) -> (r: bool)
        ensures
            r == (self is Authenticated),
    {
        match self {
            AuthSession::Authenticated { .. } => true,
            AuthSession::Anonymous => false,
        }
    }

    /// The private key, where this request is authenticated.
    pub fn get_priv_key(&self) -> (r: Option<&SealedBoxPrivateKey>)
        ensures
            match r {
                Some(k) => self matches AuthSession::Authenticated { private_key } && k == private_key,
                None => self is Anonymous,
            },
    {
        match self {
            AuthSession::Authenticated { private_key } => Some(private_key),
            AuthSession::Anonymous => None,
        }
    }
}

/// Attempts login with the user-supplied secret text. On success the
/// returned token authorizes later requests as the decoded private key;
/// the seed of the journal's key pair is recognised but refused, and
/// anything else is an invalid secret.
pub fn login(secret_text: &str, server_key: &SealedBoxPublicKey, session_box: &SecretBox) -> (r:
    Result<String, LoginFailure>)
    ensures
        match r {
            Ok(token) => spec_login_key(secret_text@, server_key@) matches Some(b)
                && spec_authorize(session_box@, token@) == Some(b),
            Err(LoginFailure::SuppliedSeedInsteadOfKey { private_key }) => spec_login_key(
                secret_text@,
                server_key@,
            ) is None && spec_login_is_seed(secret_text@, server_key@) && (base58_decode_of(
                secret_text@,
            ) matches Some(s) && private_key@ == base58_of(seed_secret_of(s))),
            Err(LoginFailure::InvalidSecret) => spec_login_key(secret_text@, server_key@) is None
                && !spec_login_is_seed(secret_text@, server_key@),
        },
{
    match SealedBoxPrivateKey::from_base58(secret_text) {
        Ok(secret) => {
            if secret.public().eq(server_key) {
                let token_bytes = session_box.encrypt(secret.bytes());
                let token = base58_encode(token_bytes.as_slice());
                Ok(token)
            } else {
                match SealedBoxPrivateKey::from_base58_seed(secret_text) {
                    Ok(derived) => {
                        if derived.public().eq(server_key) {
                            Err(LoginFailure::SuppliedSeedInsteadOfKey {
                                private_key: derived.to_base58(),
                            })
                        } else {
                            Err(LoginFailure::InvalidSecret)
                        }
                    },
                    Err(_) => Err(LoginFailure::InvalidSecret),
                }
            }
        },
        Err(_) => Err(LoginFailure::InvalidSecret),
    }
}

/// Reconstructs the request state from the token, if one came along. Any
/// failure — no token, bad text, wrong key, tampering, wrong length — is
/// the anonymous state, never an error.
pub fn authorize(token: Option<&str>, session_box: &SecretBox) -> (r: AuthSession)
    ensures
        match r {
            AuthSession::Authenticated { private_key } => token matches Some(t) && spec_authorize(
                session_box@,
                t@,
            ) == Some(private_key@),
            AuthSession::Anonymous => match token {
                Some(t) => spec_authorize(session_box@, t@) is None,
                None => true,
            },
        },
{
    let t = match token {
        Some(t) => t,
        None => {
            return AuthSession::Anonymous;
        },
    };
    let cipher = match base58_decode(t) {
        Ok(c) => c,
        Err(_) => {
            return AuthSession::Anonymous;
        },
    };
    let bytes = match session_box.decrypt(cipher.as_slice()) {
        Ok(b) => b,
        Err(_) => {
            return AuthSession::Anonymous;
        },
    };
    match SealedBoxPrivateKey::from_bytes(bytes.as_slice()) {
        Ok(k) => AuthSession::Authenticated { private_key: k },
        Err(_) => AuthSession::Anonymous,
    }
}

/// Seals `text` under the journal's public key and stamps it: the entry
/// the write path appends. Decrypting it with the journal's private key
/// yields `text` again, so writing needs no secret material at all.
pub fn compose_entry(
    public_key: &SealedBoxPublicKey,
    text: &str,
    timestamp_ms_utc: i64,
    offset_utc_mins: i32,
) -> (r: Entry)
    ensures
        r.timestamp_ms_utc == timestamp_ms_utc,
        r.offset_utc_mins == offset_utc_mins,
        forall|sk: Seq<u8>|
            sk.len() == SECRET_KEY_LEN && public_of(sk) == public_key@
                ==> #[trigger] spec_decrypt_text(sk, r@.contents) == Some(text@),
{
    let contents = public_key.encrypt(text.as_bytes());
    proof {
        vstd::utf8::encode_utf8_valid_utf8(text@);
        vstd::utf8::encode_utf8_decode_utf8(text@);
    }
    Entry { timestamp_ms_utc, offset_utc_mins, contents }
}

/// One decrypted entry, ready for rendering: the entry's stamp and its
/// plaintext markdown.
#[derive(Debug)]
pub struct Post {
    pub timestamp_ms_utc: i64,
    pub offset_utc_mins: i32,
    pub markdown: String,
}

/// The mathematical value of a [`Post`].
pub ghost struct PostView {
    pub timestamp_ms_utc: i64,
    pub offset_utc_mins: i32,
    pub markdown: Seq<char>,
}

impl View for Post {
    type V = PostView;

    open spec fn view(&self) -> PostView {
        PostView {
            timestamp_ms_utc: self.timestamp_ms_utc,
            offset_utc_mins: self.offset_utc_mins,
            markdown: self.markdown@,
        }
    }
}

impl DeepView for Post {
    type V = PostView;

    open spec fn deep_view(&self) -> PostView {
        self@
    }
}

/// The post an entry decrypts to under private key `sk`, when it does.
pub open spec fn spec_post_of(sk: Seq<u8>, e: EntryView) -> Option<PostView> {
    match spec_decrypt_text(sk, e.contents) {
        Some(t) => Some(
            PostView {
                timestamp_ms_utc: e.timestamp_ms_utc,
                offset_utc_mins: e.offset_utc_mins,
                markdown: t,
            },
        ),
        None => None,
    }
}

/// Decrypts one entry into a post; failure here means corruption or a key
/// mismatch, never an empty post.
pub fn entry_to_post(entry: &Entry, key: &SealedBoxPrivateKey) -> (r: Result<Post, DecryptFailure>)
    ensures
        match r {
            Ok(p) => spec_post_of(key@, entry@) == Some(p@),
            Err(_) => spec_post_of(key@, entry@) is None,
        },
{
    match key.decrypt_string(entry.contents.as_slice()) {
        Ok(markdown) => Ok(
            Post {
                timestamp_ms_utc: entry.timestamp_ms_utc,
                offset_utc_mins: entry.offset_utc_mins,
                markdown,
            },
        ),
        Err(e) => Err(e),
    }
}

/// Reads the requested page and decrypts every entry in it with the
/// authenticated private key. If any single entry fails to decrypt the
/// whole read fails: partial content would hide corruption from the user.
#[verifier::loop_isolation(false)]
pub fn read_posts(store: &EntryStore, key: &SealedBoxPrivateKey, query: &ReadQuery) -> (r: Result<
    Vec<Post>,
    ReadError,
>)
    ensures
        !spec_version_current(store@) ==> r == Err::<Vec<Post>, ReadError>(
            ReadError::SchemaVersionMismatch,
        ),
        spec_version_current(store@) ==> (match r {
            Ok(posts) => {
                let page = spec_page(store@.entries, spec_offset(*query), spec_limit(*query));
                posts.deep_view().len() == page.len() && forall|i: int|
                    0 <= i < page.len() ==> spec_post_of(key@, #[trigger] page[i]) == Some(
                        posts.deep_view()[i],
                    )
            },
            Err(ReadError::DecryptFailure) => exists|i: int|
                0 <= i < spec_page(store@.entries, spec_offset(*query), spec_limit(*query)).len()
                    && spec_post_of(
                    key@,
                    #[trigger] spec_page(store@.entries, spec_offset(*query), spec_limit(*query))[i],
                ) is None,
            Err(_) => false,
        }),
{
    let entries = match store.get_posts(query) {
        Ok(v) => v,
        Err(_) => {
            return Err(ReadError::SchemaVersionMismatch);
        },
    };
    let ghost page = spec_page(store@.entries, spec_offset(*query), spec_limit(*query));
    let mut posts: Vec<Post> = Vec::new();
    let mut i: usize = 0;
    while i < entries.len()
        invariant
            i <= entries.len(),
            posts.deep_view().len() == i,
            forall|k: int|
                0 <= k < i ==> spec_post_of(key@, #[trigger] page[k]) == Some(
                    posts.deep_view()[k],
                ),
        decreases entries.len() - i,
    {
        match entry_to_post(&entries[i], key) {
            Ok(p) => {
                let ghost prior = posts.deep_view();
                posts.push(p);
                proof {
                    assert(posts.deep_view() =~= prior.push(p@));
                    assert(entries.deep_view()[i as int] == page[i as int]);
                }
            },
            Err(_) => {
                proof {
                    assert(entries.deep_view()[i as int] == page[i as int]);
                    assert(spec_post_of(key@, page[i as int]) is None);
                }
                return Err(ReadError::DecryptFailure);
            },
        }
        i += 1;
    }
    Ok(posts)
}

} // verus!
