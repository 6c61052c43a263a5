//! The durable, ordered entry store and its schema version gate.
//!
//! The store keeps an append-only ledger of sealed entries keyed by their
//! timestamp, strictly descending, together with a small settings table of
//! unique string keys that holds at least the schema version and the
//! journal's public key. Every read or write of entries first passes the
//! version gate: a store recorded under any other schema version refuses to
//! operate.

use vstd::prelude::*;
use vstd::slice::slice_to_vec;
use crate::codec::{base58_of, base58_decode_of, str_eq};
use crate::vault::{MalformedKeyMaterial, SealedBoxPublicKey};
use crate::sodium::PUBLIC_KEY_LEN;

verus! {

/// The schema version this code reads and writes.
pub const DB_VERSION: u32 = 1;

/// Entries returned per page when the caller names no limit.
pub const DEFAULT_LIMIT: usize = 50;

/// Why a store operation failed.
#[derive(Clone, Copy, Debug, PartialEq, Eq, Structural)]
pub enum StoreError {
    /// The stored schema version is not the one this code expects.
    SchemaVersionMismatch,
    /// An insert collided with an existing row.
    StorageConflict,
    /// A settings row is missing.
    NotFound,
    /// A settings row holds a value that cannot be read.
    MalformedValue,
}

/// One journal entry: a unique timestamp, the writer's UTC offset, and the
/// sealed ciphertext of the content.
#[derive(Debug)]
pub struct Entry {
    /// Milliseconds since the UTC epoch; doubles as the storage key.
    pub timestamp_ms_utc: i64,
    /// The writer's offset from UTC, in minutes.
    pub offset_utc_mins: i32,
    /// Sealed ciphertext, opaque to the store.
    pub contents: Vec<u8>,
}

/// The mathematical value of an [`Entry`].
pub ghost struct EntryView {
    pub timestamp_ms_utc: i64,
    pub offset_utc_mins: i32,
    pub contents: Seq<u8>,
}

impl View for Entry {
    type V = EntryView;

    open spec fn view(&self) -> EntryView {
        EntryView {
            timestamp_ms_utc: self.timestamp_ms_utc,
            offset_utc_mins: self.offset_utc_mins,
            contents: self.contents@,
        }
    }
}

impl DeepView for Entry {
    type V = EntryView;

    open spec fn deep_view(&self) -> EntryView {
        self@
    }
}

impl Entry {
    /// An identical copy of this entry.
    pub fn duplicate(&self) -> (r: Entry)
        ensures
            r@ == self@,
    {
        Entry {
            timestamp_ms_utc: self.timestamp_ms_utc,
            offset_utc_mins: self.offset_utc_mins,
            contents: slice_to_vec(self.contents.as_slice()),
        }
    }
}

/// One settings row: a unique string key and its value.
pub struct Setting {
    pub key: String,
    pub value: String,
}

impl DeepView for Setting {
    type V = (Seq<char>, Seq<char>);

    open spec fn deep_view(&self) -> (Seq<char>, Seq<char>) {
        (self.key@, self.value@)
    }
}

/// The mathematical value of an [`EntryStore`].
pub ghost struct StoreView {
    pub entries: Seq<EntryView>,
    pub settings: Seq<(Seq<char>, Seq<char>)>,
}

/// Entries stand in strictly descending timestamp order, which also makes
/// every timestamp unique.
pub open spec fn sorted_desc(s: Seq<EntryView>) -> bool {
    forall|i: int, j: int|
        0 <= i < j < s.len() ==> #[trigger] s[i].timestamp_ms_utc > #[trigger] s[j].timestamp_ms_utc
}

/// No two settings rows share a key.
pub open spec fn keys_unique(s: Seq<(Seq<char>, Seq<char>)>) -> bool {
    forall|i: int, j: int| 0 <= i < j < s.len() ==> (#[trigger] s[i]).0 != (#[trigger] s[j]).0
}

/// Some entry carries the timestamp `t`.
pub open spec fn has_timestamp(s: Seq<EntryView>, t: i64) -> bool {
    exists|i: int| 0 <= i < s.len() && (#[trigger] s[i]).timestamp_ms_utc == t
}

/// The value stored under `key`, if any.
pub open spec fn spec_setting(s: Seq<(Seq<char>, Seq<char>)>, key: Seq<char>) -> Option<Seq<char>> {
    if exists|i: int| 0 <= i < s.len() && (#[trigger] s[i]).0 == key {
        let i = choose|i: int| 0 <= i < s.len() && (#[trigger] s[i]).0 == key;
        Some(s[i].1)
    } else {
        None
    }
}

/// With unique keys, a row found at `i` is the row `spec_setting` names.
proof fn lemma_setting_at(s: Seq<(Seq<char>, Seq<char>)>, i: int, key: Seq<char>)
    requires
        keys_unique(s),
        0 <= i < s.len(),
        s[i].0 == key,
    ensures
        spec_setting(s, key) == Some(s[i].1),
{
    let j = choose|j: int| 0 <= j < s.len() && (#[trigger] s[j]).0 == key;
    assert(s[j].0 == key);
    if i < j {
        assert(s[i].0 != s[j].0);
    } else if j < i {
        assert(s[j].0 != s[i].0);
    }
}

/// Whether a decimal digit.
pub open spec fn is_digit(c: char) -> bool {
    48 <= c as u32 <= 57
}

/// Every character is a decimal digit.
pub open spec fn all_digits(s: Seq<char>) -> bool {
    forall|i: int| 0 <= i < s.len() ==> is_digit(#[trigger] s[i])
}

/// The number the digit string `s` denotes, most significant first.
pub open spec fn digits_value(s: Seq<char>) -> int
    decreases s.len(),
{
    if s.len() == 0 {
        0
    } else {
        10 * digits_value(s.drop_last()) + (s.last() as u32 - 48)
    }
}

/// A string parses as a `u32` when it is one or more decimal digits whose
/// value fits; anything else is rejected.
pub open spec fn spec_parse_u32(s: Seq<char>) -> Option<u32> {
    if s.len() > 0 && all_digits(s) && digits_value(s) <= u32::MAX {
        Some(digits_value(s) as u32)
    } else {
        None
    }
}

proof fn lemma_digits_value_nonneg(s: Seq<char>)
    requires
        all_digits(s),
    ensures
        digits_value(s) >= 0,
    decreases s.len(),
{
    if s.len() > 0 {
        assert(all_digits(s.drop_last())) by {
            assert(forall|i: int|
                0 <= i < s.len() - 1 ==> s.drop_last()[i] == #[trigger] s[i]);
        }
        lemma_digits_value_nonneg(s.drop_last());
    }
}

/// A digit string is worth at least any of its prefixes.
proof fn lemma_digits_prefix_le(s: Seq<char>, i: int)
    requires
        all_digits(s),
        0 <= i <= s.len(),
    ensures
        digits_value(s.take(i)) <= digits_value(s),
    decreases s.len() - i,
{
    assert(all_digits(s.take(i))) by {
        assert(forall|k: int| 0 <= k < i ==> s.take(i)[k] == #[trigger] s[k]);
    }
    if i == s.len() {
        assert(s.take(i) =~= s);
    } else {
        lemma_digits_prefix_le(s, i + 1);
        lemma_digits_value_nonneg(s.take(i));
        assert(s.take(i + 1).drop_last() =~= s.take(i));
        assert(digits_value(s.take(i + 1)) == 10 * digits_value(s.take(i)) + (s[i] as u32 - 48));
    }
}

/// Reads a decimal `u32`; returns `None` on an empty string, a non-digit,
/// or a value that does not fit.
pub fn parse_u32(s: &str) -> (r: Option<u32>)
    ensures
        r == spec_parse_u32(s@),
{
    let n = s.unicode_len();
    if n == 0 {
        return None;
    }
    let mut acc: u64 = 0;
    let mut i: usize = 0;
    while i < n
        invariant
            n == s@.len(),
            0 < n,
            i <= n,
            all_digits(s@.take(i as int)),
            acc == digits_value(s@.take(i as int)),
            acc <= u32::MAX,
        decreases n - i,
    {
        let c = s.get_char(i);
        let d = c as u32;
        if d < 48 || d > 57 {
            assert(!is_digit(s@[i as int]));
            return None;
        }
        let v: u64 = acc * 10 + (d - 48) as u64;
        proof {
            assert(s@.take(i as int + 1).drop_last() =~= s@.take(i as int));
            assert(all_digits(s@.take(i as int + 1)));
            assert(v == digits_value(s@.take(i as int + 1)));
        }
        if v > u32::MAX as u64 {
            proof {
                if all_digits(s@) && digits_value(s@) <= u32::MAX {
                    lemma_digits_prefix_le(s@, i as int + 1);
                }
            }
            return None;
        }
        acc = v;
        i += 1;
    }
    proof {
        assert(s@.take(n as int) =~= s@);
    }
    Some(acc as u32)
}

/// The offset a page query asks for; absent means the first entry.
pub open spec fn spec_offset(q: ReadQuery) -> nat {
    match q.offset {
        Some(o) => o as nat,
        None => 0,
    }
}

/// The limit a page query asks for; absent means [`DEFAULT_LIMIT`].
pub open spec fn spec_limit(q: ReadQuery) -> nat {
    match q.limit {
        Some(l) => l as nat,
        None => DEFAULT_LIMIT as nat,
    }
}

/// The page of `entries` that skips `offset` entries and then holds up to
/// `limit` of them, in store order.
pub open spec fn spec_page(entries: Seq<EntryView>, offset: nat, limit: nat) -> Seq<EntryView> {
    let start = if offset <= entries.len() {
        offset as int
    } else {
        entries.len() as int
    };
    let end = if offset + limit <= entries.len() {
        (offset + limit) as int
    } else {
        entries.len() as int
    };
    entries.subrange(start, end)
}

/// Law: the page that starts at the first entry and may hold the whole
/// store is the whole store.
pub proof fn lemma_page_all(entries: Seq<EntryView>)
    ensures
        spec_page(entries, 0, entries.len()) == entries,
{
    assert(spec_page(entries, 0, entries.len()) =~= entries);
}

/// Law: a page holds `min(limit, max(0, len - offset))` entries.
pub proof fn lemma_page_len(entries: Seq<EntryView>, offset: nat, limit: nat)
    ensures
        spec_page(entries, offset, limit).len() == if offset <= entries.len() {
            if limit <= entries.len() - offset {
                limit as int
            } else {
                entries.len() - offset
            }
        } else {
            0int
        },
{
}

/// Law: the pages before and after a cut at `k` concatenate to the page of
/// everything.
pub proof fn lemma_page_concat(entries: Seq<EntryView>, k: nat)
    requires
        k <= entries.len(),
    ensures
        spec_page(entries, 0, k) + spec_page(entries, k, (entries.len() - k) as nat)
            == spec_page(entries, 0, entries.len()),
{
    assert(spec_page(entries, 0, k) + spec_page(entries, k, (entries.len() - k) as nat)
        =~= spec_page(entries, 0, entries.len()));
}

/// Law: every page of a store in strictly descending timestamp order is
/// itself in strictly descending timestamp order.
pub proof fn lemma_page_sorted(entries: Seq<EntryView>, offset: nat, limit: nat)
    requires
        sorted_desc(entries),
    ensures
        sorted_desc(spec_page(entries, offset, limit)),
{
}

/// The HTTP-level query for a page of entries.
pub struct ReadQuery {
    pub offset: Option<usize>,
    pub limit: Option<usize>,
}

/// What `get_version` yields on a store: the parsed version row, or which
/// of the two ways it is unusable.
pub open spec fn spec_get_version(s: StoreView) -> Result<u32, StoreError> {
    match spec_setting(s.settings, "version"@) {
        Some(t) => match spec_parse_u32(t) {
            Some(v) => Ok(v),
            None => Err(StoreError::MalformedValue),
        },
        None => Err(StoreError::NotFound),
    }
}

/// The version gate: the store carries exactly the schema version this
/// code expects.
pub open spec fn spec_version_current(s: StoreView) -> bool {
    spec_get_version(s) == Ok::<u32, StoreError>(DB_VERSION)
}

/// The ordered, paginated store of sealed entries and its settings table.
pub struct EntryStore {
    settings: Vec<Setting>,
    entries: Vec<Entry>,
}

impl View for EntryStore {
    type V = StoreView;

    closed spec fn view(&self) -> StoreView {
        StoreView { entries: self.entries.deep_view(), settings: self.settings.deep_view() }
    }
}

impl EntryStore {
    #[verifier::type_invariant]
    spec fn wf(self) -> bool {
        sorted_desc(self.entries.deep_view()) && keys_unique(self.settings.deep_view())
    }

    /// A fresh store: no entries, and a settings table holding only the
    /// current schema version.
    pub fn new() -> (r: Self)
        ensures
            r@.entries == Seq::<EntryView>::empty(),
            r@.settings == seq![("version"@, "1"@)],
            spec_version_current(r@),
    {
        let mut settings: Vec<Setting> = Vec::new();
        settings.push(Setting { key: "version".to_owned(), value: "1".to_owned() });
        let r = EntryStore { settings, entries: Vec::new() };
        proof {
            assert(r@.settings =~~= seq![("version"@, "1"@)]);
            assert(r@.entries =~~= Seq::<EntryView>::empty());
            lemma_setting_at(r@.settings, 0, "version"@);
            reveal_strlit("1");
            assert("1"@.len() == 1);
            assert(is_digit("1"@[0]));
            assert("1"@.last() == '1');
            assert("1"@.drop_last() =~= Seq::<char>::empty());
            assert(digits_value(Seq::<char>::empty()) == 0);
            assert(digits_value("1"@) == 1);
        }
        r
    }

    /// A fresh journal store as one setup: no entries, and a settings
    /// table holding exactly the current schema version and the
    /// caller-supplied public key in its base-58 form. The matching
    /// private key is never part of the store.
    pub fn initialize(public_key: &SealedBoxPublicKey) -> (r: Self)
        ensures
            r@.entries == Seq::<EntryView>::empty(),
            r@.settings == seq![("version"@, "1"@), ("publicKey"@, base58_of(public_key@))],
            spec_version_current(r@),
            spec_setting(r@.settings, "publicKey"@) == Some(base58_of(public_key@)),
    {
        let mut store = EntryStore::new();
        proof {
            reveal_strlit("version");
            reveal_strlit("publicKey");
            assert("version"@.len() == 7);
            assert("publicKey"@.len() == 9);
            assert(store@.settings[0].0 == "version"@);
            assert(spec_setting(store@.settings, "publicKey"@) is None);
            lemma_setting_at(store@.settings, 0, "version"@);
        }
        let key_text = public_key.to_base58();
        let written = store.write_setting("publicKey".to_owned(), key_text);
        proof {
            assert(written is Ok);
            assert(store@.settings =~~= seq![
                ("version"@, "1"@),
                ("publicKey"@, base58_of(public_key@)),
            ]);
            assert(keys_unique(store@.settings));
            lemma_setting_at(store@.settings, 0, "version"@);
            lemma_setting_at(store@.settings, 1, "publicKey"@);
        }
        store
    }

    /// Rebuilds a store from raw rows, accepting them only when they
    /// satisfy the store's shape: entries strictly descending by timestamp
    /// and settings keys unique.
    #[verifier::loop_isolation(false)]
    pub fn load(settings: Vec<Setting>, entries: Vec<Entry>) -> (r: Option<EntryStore>)
        ensures
            match r {
                Some(s) => s@.entries == entries.deep_view() && s@.settings == settings.deep_view()
                    && sorted_desc(entries.deep_view()) && keys_unique(settings.deep_view()),
                None => !(sorted_desc(entries.deep_view()) && keys_unique(settings.deep_view())),
            },
    {
        let n = entries.len();
        let mut i: usize = 0;
        while n - i > 1
            invariant
                i <= n,
                forall|p: int, q: int|
                    0 <= p < q < n && q <= i ==> (#[trigger] entries.deep_view()[p]).timestamp_ms_utc
                        > (#[trigger] entries.deep_view()[q]).timestamp_ms_utc,
            decreases n - i,
        {
            if entries[i].timestamp_ms_utc <= entries[i + 1].timestamp_ms_utc {
                proof {
                    assert((entries.deep_view()[i as int]).timestamp_ms_utc
                        <= (entries.deep_view()[i as int + 1]).timestamp_ms_utc);
                    assert(!sorted_desc(entries.deep_view()));
                }
                return None;
            }
            i += 1;
        }
        assert(sorted_desc(entries.deep_view()));
        let m = settings.len();
        let mut a: usize = 0;
        while a < m
            invariant
                a <= m,
                forall|p: int, q: int|
                    0 <= p < q < m && p < a ==> (#[trigger] settings.deep_view()[p]).0
                        != (#[trigger] settings.deep_view()[q]).0,
            decreases m - a,
        {
            let mut b: usize = a + 1;
            while b < m
                invariant
                    a < b <= m,
                    forall|q: int|
                        a < q < b ==> (#[trigger] settings.deep_view()[q]).0
                            != settings.deep_view()[a as int].0,
                decreases m - b,
            {
                if str_eq(settings[a].key.as_str(), settings[b].key.as_str()) {
                    proof {
                        assert((settings.deep_view()[a as int]).0
                            == (settings.deep_view()[b as int]).0);
                        assert(!keys_unique(settings.deep_view()));
                    }
                    return None;
                }
                b += 1;
            }
            a += 1;
        }
        assert(keys_unique(settings.deep_view()));
        Some(EntryStore { settings, entries })
    }

    /// The row index holding `key`, if any.
    #[verifier::loop_isolation(false)]
    fn setting_index(&self, key: &str) -> (r: Option<usize>)
        ensures
            match r {
                Some(i) => i < self@.settings.len() && self@.settings[i as int].0 == key@,
                None => forall|i: int|
                    0 <= i < self@.settings.len() ==> (#[trigger] self@.settings[i]).0 != key@,
            },
    {
        let mut i: usize = 0;
        while i < self.settings.len()
            invariant
                i <= self@.settings.len(),
                self@.settings.len() == self.settings.len(),
                forall|j: int| 0 <= j < i ==> (#[trigger] self@.settings[j]).0 != key@,
            decreases self.settings.len() - i,
        {
            if str_eq(self.settings[i].key.as_str(), key) {
                return Some(i);
            }
            i += 1;
        }
        None
    }

    /// The settings rows, exactly as the store holds them; what a mirror
    /// of this store must persist.
    pub fn settings(&self) -> (r: &Vec<Setting>)
        ensures
            r.deep_view() == self@.settings,
    {
        &self.settings
    }

    /// Looks up one settings row by key.
    pub fn read_setting(&self, key: &str) -> (r: Result<&String, StoreError>)
        ensures
            match r {
                Ok(v) => spec_setting(self@.settings, key@) == Some(v@),
                Err(e) => e == StoreError::NotFound && spec_setting(self@.settings, key@) is None,
            },
    {
        proof {
            use_type_invariant(&*self);
        }
        match self.setting_index(key) {
            Some(i) => {
                proof {
                    lemma_setting_at(self@.settings, i as int, key@);
                }
                Ok(&self.settings[i].value)
            },
            None => Err(StoreError::NotFound),
        }
    }

    /// Inserts one settings row; a second row under an existing key is a
    /// conflict, never an overwrite.
    pub fn write_setting(&mut self, key: String, value: String) -> (r: Result<(), StoreError>)
        ensures
            match r {
                Ok(_) => spec_setting(old(self)@.settings, key@) is None && final(self)@.settings
                    == old(self)@.settings.push((key@, value@)) && final(self)@.entries == old(
                    self,
                )@.entries,
                Err(e) => e == StoreError::StorageConflict && spec_setting(
                    old(self)@.settings,
                    key@,
                ) is Some && final(self)@ == old(self)@,
            },
    {
        proof {
            use_type_invariant(&*self);
        }
        match self.setting_index(key.as_str()) {
            Some(i) => {
                proof {
                    lemma_setting_at(self@.settings, i as int, key@);
                }
                Err(StoreError::StorageConflict)
            },
            None => {
                let ghost before = self.settings.deep_view();
                let mut settings: Vec<Setting> = Vec::new();
                std::mem::swap(&mut settings, &mut self.settings);
                settings.push(Setting { key, value });
                proof {
                    assert(settings.deep_view() =~~= before.push((key@, value@)));
                }
                self.settings = settings;
                Ok(())
            },
        }
    }

    /// The parsed schema version from the settings table.
    pub fn get_version(&self) -> (r: Result<u32, StoreError>)
        ensures
            r == spec_get_version(self@),
    {
        match self.read_setting("version") {
            Ok(v) => match parse_u32(v.as_str()) {
                Some(n) => Ok(n),
                None => Err(StoreError::MalformedValue),
            },
            Err(_) => Err(StoreError::NotFound),
        }
    }

    /// Whether the stored schema version differs from the one this code
    /// expects — older or newer both count, since no downgrade path exists.
    pub fn needs_upgrade(&self) -> (r: Result<bool, StoreError>)
        ensures
            match spec_get_version(self@) {
                Ok(v) => r == Ok::<bool, StoreError>(v != DB_VERSION),
                Err(e) => r == Err::<bool, StoreError>(e),
            },
    {
        match self.get_version() {
            Ok(v) => Ok(v != DB_VERSION),
            Err(e) => Err(e),
        }
    }

    /// The journal's public key, parsed from its settings row.
    pub fn public_key(&self) -> (r: Result<SealedBoxPublicKey, StoreError>)
        ensures
            match r {
                Ok(k) => spec_setting(self@.settings, "publicKey"@) matches Some(t)
                    && base58_decode_of(t) matches Some(b) && b.len() == PUBLIC_KEY_LEN && k@ == b,
                Err(StoreError::NotFound) => spec_setting(self@.settings, "publicKey"@) is None,
                Err(StoreError::MalformedValue) => spec_setting(self@.settings, "publicKey"@)
                    matches Some(t) && !(base58_decode_of(t) matches Some(b) && b.len()
                    == PUBLIC_KEY_LEN),
                Err(_) => false,
            },
    {
        match self.read_setting("publicKey") {
            Ok(v) => match SealedBoxPublicKey::from_base58(v.as_str()) {
                Ok(k) => Ok(k),
                Err(_) => Err(StoreError::MalformedValue),
            },
            Err(_) => Err(StoreError::NotFound),
        }
    }

    /// The page of sealed entries the query asks for, newest first. The
    /// store never decrypts; the caller holds the private key. Refused
    /// whole when the version gate fails.
    #[verifier::loop_isolation(false)]
    pub fn get_posts(&self, query: &ReadQuery) -> (r: Result<Vec<Entry>, StoreError>)
        ensures
            !spec_version_current(self@) ==> r == Err::<Vec<Entry>, StoreError>(
                StoreError::SchemaVersionMismatch,
            ),
            spec_version_current(self@) ==> (r matches Ok(v) && v.deep_view() == spec_page(
                self@.entries,
                spec_offset(*query),
                spec_limit(*query),
            ) && sorted_desc(v.deep_view())),
    {
        proof {
            use_type_invariant(&*self);
        }
        match self.needs_upgrade() {
            Ok(false) => {},
            _ => {
                return Err(StoreError::SchemaVersionMismatch);
            },
        }
        let offset = match query.offset {
            Some(o) => o,
            None => 0,
        };
        let limit = match query.limit {
            Some(l) => l,
            None => DEFAULT_LIMIT,
        };
        let len = self.entries.len();
        let start = if offset <= len {
            offset
        } else {
            len
        };
        let take = if limit <= len - start {
            limit
        } else {
            len - start
        };
        let end = start + take;
        let mut out: Vec<Entry> = Vec::new();
        let mut i = start;
        while i < end
            invariant
                start <= i <= end,
                out.deep_view() =~= self@.entries.subrange(start as int, i as int),
            decreases end - i,
        {
            let e = self.entries[i].duplicate();
            let ghost prior = out.deep_view();
            out.push(e);
            proof {
                assert(out.deep_view() =~= prior.push(e@));
                assert(e@ == self@.entries[i as int]);
                assert(out.deep_view() =~= self@.entries.subrange(start as int, i as int + 1));
            }
            i += 1;
        }
        proof {
            assert(out.deep_view() =~= spec_page(
                self@.entries,
                spec_offset(*query),
                spec_limit(*query),
            ));
            lemma_page_sorted(self@.entries, spec_offset(*query), spec_limit(*query));
        }
        Ok(out)
    }

    /// Appends one sealed entry. A timestamp collision is surfaced as a
    /// conflict, never an overwrite; the version gate is checked first.
    #[verifier::loop_isolation(false)]
    pub fn write_entry(&mut self, entry: Entry) -> (r: Result<(), StoreError>)
        ensures
            match r {
                Ok(_) => {
                    &&& spec_version_current(old(self)@)
                    &&& !has_timestamp(old(self)@.entries, entry.timestamp_ms_utc)
                    &&& has_timestamp(final(self)@.entries, entry.timestamp_ms_utc)
                    &&& final(self)@.settings == old(self)@.settings
                    &&& final(self)@.entries.len() == old(self)@.entries.len() + 1
                    &&& sorted_desc(final(self)@.entries)
                    &&& exists|i: int|
                        0 <= i <= old(self)@.entries.len() && final(self)@.entries
                            == #[trigger] old(self)@.entries.insert(i, entry@)
                },
                Err(StoreError::SchemaVersionMismatch) => !spec_version_current(old(self)@)
                    && final(self)@ == old(self)@,
                Err(StoreError::StorageConflict) => spec_version_current(old(self)@)
                    && has_timestamp(old(self)@.entries, entry.timestamp_ms_utc) && final(self)@
                    == old(self)@,
                Err(_) => false,
            },
    {
        proof {
            use_type_invariant(&*self);
        }
        match self.needs_upgrade() {
            Ok(false) => {},
            _ => {
                return Err(StoreError::SchemaVersionMismatch);
            },
        }
        let len = self.entries.len();
        let mut i: usize = 0;
        while i < len && self.entries[i].timestamp_ms_utc > entry.timestamp_ms_utc
            invariant
                i <= len,
                forall|j: int|
                    0 <= j < i ==> (#[trigger] self@.entries[j]).timestamp_ms_utc
                        > entry.timestamp_ms_utc,
            decreases len - i,
        {
            i += 1;
        }
        if i < len {
            if self.entries[i].timestamp_ms_utc == entry.timestamp_ms_utc {
                proof {
                    assert((self@.entries[i as int]).timestamp_ms_utc == entry.timestamp_ms_utc);
                    assert(has_timestamp(self@.entries, entry.timestamp_ms_utc));
                }
                return Err(StoreError::StorageConflict);
            }
        }
        proof {
            assert forall|j: int|
                i <= j < self@.entries.len() implies (#[trigger] self@.entries[j]).timestamp_ms_utc
                < entry.timestamp_ms_utc by {
                if i < j {
                    assert(self@.entries[i as int].timestamp_ms_utc
                        > self@.entries[j].timestamp_ms_utc);
                }
            }
            assert(!has_timestamp(self@.entries, entry.timestamp_ms_utc));
        }
        let ghost before = self@.entries;
        let ghost gi = i as int;
        let mut entries: Vec<Entry> = Vec::new();
        std::mem::swap(&mut entries, &mut self.entries);
        entries.insert(i, entry);
        proof {
            assert(entries.deep_view() =~= before.insert(gi, entry@));
            let ins = entries.deep_view();
            assert forall|p: int, q: int| 0 <= p < q < ins.len() implies (#[trigger] ins[p]).timestamp_ms_utc
                > (#[trigger] ins[q]).timestamp_ms_utc by {
                assert(p < gi ==> ins[p] == before[p]);
                assert(p == gi ==> ins[p] == entry@);
                assert(p > gi ==> ins[p] == before[p - 1]);
                assert(q < gi ==> ins[q] == before[q]);
                assert(q == gi ==> ins[q] == entry@);
                assert(q > gi ==> ins[q] == before[q - 1]);
            }
            assert(sorted_desc(entries.deep_view()));
            assert(entries.deep_view()[gi] == entry@);
            assert(has_timestamp(entries.deep_view(), entry.timestamp_ms_utc));
        }
        self.entries = entries;
        Ok(())
    }
}

} // verus!
