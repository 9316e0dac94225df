//! The result cache: fingerprints, the in-memory tier, expiry and eviction.
//!
//! A [`CacheManager`] owns the in-memory tier and the policy of the cache.
//! It decides; it does not touch a disk. A caller that keeps a disk tier
//! reads and writes the files and hands what it found to the manager:
//! [`CacheManager::resolve`] takes what a file held, and
//! [`CacheManager::eviction_plan`] takes the listing of the directory.
//!
//! The in-memory tier is a vector of entries with the invariant that no two
//! of them are kept for the same fingerprint: `vstd` states what a hash map
//! holds only for keys whose hashing it models, and a fingerprint of four
//! strings is not among them.

use crate::clock::{
    expired, has_date, is_clock_reading, is_expired_at, now, rfc3339_instant, rfc3339_text,
    to_rfc3339, Instant, LAST_SECOND,
};
use crate::runner::RunResult;
use crate::text::{
    all_path_safe, chars_all_path_safe, chars_of, escaped, fixed_hex, is_path_safe_char,
    is_plain_file_name, lemma_escaped_injective, lemma_escaped_safe, lemma_fixed_hex_len,
    lemma_fixed_hex_safe, lemma_json_name_is_plain, push_escaped, push_fixed_hex, push_text,
    string_of_range, text_eq,
};
use vstd::prelude::*;
use vstd::utf8::encode_utf8;

verus! {

/// The fingerprint of a run: the repository, the commit, the task and the
/// variant. Two runs with the same fingerprint are expected to give the
/// same result.
#[derive(Debug, Clone)]
pub struct CacheKey {
    pub repo_url: String,
    pub commit_sha: String,
    pub task_id: String,
    pub variant: String,
}

/// The view of a [`CacheKey`].
pub struct CacheKeyView {
    pub repo_url: Seq<char>,
    pub commit_sha: Seq<char>,
    pub task_id: Seq<char>,
    pub variant: Seq<char>,
}

impl View for CacheKey {
    type V = CacheKeyView;

    open spec fn view(&self) -> CacheKeyView {
        CacheKeyView {
            repo_url: self.repo_url@,
            commit_sha: self.commit_sha@,
            task_id: self.task_id@,
            variant: self.variant@,
        }
    }
}

/// The hash of a run of bytes: from 0, each byte in turn takes the hash to
/// `hash * 31 + byte`, modulo 2^64.
pub open spec fn hash_of(bytes: Seq<u8>) -> u64
    decreases bytes.len(),
{
    if bytes.len() == 0 {
        0
    } else {
        hash_of(bytes.drop_last()).wrapping_mul(31).wrapping_add(bytes.last() as u64)
    }
}

/// The hash of a text: the hash of its UTF-8 bytes, as sixteen hex digits.
pub open spec fn hash_text(s: Seq<char>) -> Seq<char> {
    fixed_hex(hash_of(encode_utf8(s)) as nat, 16)
}

/// The file name of a fingerprint: the hash of the repository, then the
/// commit, the task and the variant, each escaped, joined by underscores.
/// A commit, task or variant made of ASCII letters, digits and hyphens
/// stands in the name as it is.
pub open spec fn filename_of(key: CacheKeyView) -> Seq<char> {
    hash_text(key.repo_url) + "_"@ + escaped(key.commit_sha) + "_"@ + escaped(key.task_id) + "_"@
        + escaped(key.variant)
}

/// The file name of every fingerprint is safe as a path component: it is
/// not empty and holds only ASCII letters and digits, hyphens and
/// underscores, whatever the fingerprint holds.
pub proof fn lemma_filename_is_path_safe(key: CacheKeyView)
    ensures
        path_component_check(filename_of(key)) == Ok::<(), PathError>(()),
        all_path_safe(filename_of(key)),
        filename_of(key).len() > 0,
{
    reveal_strlit("_");
    let hash = hash_text(key.repo_url);
    lemma_fixed_hex_safe(hash_of(encode_utf8(key.repo_url)) as nat, 16);
    lemma_fixed_hex_len(hash_of(encode_utf8(key.repo_url)) as nat, 16);
    lemma_escaped_safe(key.commit_sha);
    lemma_escaped_safe(key.task_id);
    lemma_escaped_safe(key.variant);
    let commit = escaped(key.commit_sha);
    let task = escaped(key.task_id);
    let variant = escaped(key.variant);
    let u = "_"@;
    let name = filename_of(key);
    let a = hash.len();
    let b = a + 1;
    let c = b + commit.len();
    let d = c + 1;
    let e = d + task.len();
    let f = e + 1;
    assert(name.len() == f + variant.len());
    assert forall|i: int| 0 <= i < name.len() implies is_path_safe_char(#[trigger] name[i]) by {
        if i < a {
            assert(name[i] == hash[i]);
        } else if i < b {
            assert(name[i] == u[i - a]);
        } else if i < c {
            assert(name[i] == commit[i - b]);
        } else if i < d {
            assert(name[i] == u[i - c]);
        } else if i < e {
            assert(name[i] == task[i - d]);
        } else if i < f {
            assert(name[i] == u[i - e]);
        } else {
            assert(name[i] == variant[i - f]);
        }
    }
}

/// Two texts that differ stay different between the same two texts.
pub proof fn lemma_middle_differs(before: Seq<char>, x: Seq<char>, y: Seq<char>, after: Seq<char>)
    requires
        x != y,
    ensures
        before + x + after != before + y + after,
{
    let left = before + x + after;
    let right = before + y + after;
    if left == right {
        assert(left.len() == before.len() + x.len() + after.len());
        assert(right.len() == before.len() + y.len() + after.len());
        assert(x =~= left.subrange(before.len() as int, (before.len() + x.len()) as int));
        assert(y =~= right.subrange(before.len() as int, (before.len() + y.len()) as int));
    }
}

/// Fingerprints of one repository that differ in exactly one of commit,
/// task and variant have different file names.
pub proof fn lemma_changed_part_changes_filename(a: CacheKeyView, b: CacheKeyView)
    requires
        a.repo_url == b.repo_url,
        (a.commit_sha != b.commit_sha && a.task_id == b.task_id && a.variant == b.variant) || (
        a.commit_sha == b.commit_sha && a.task_id != b.task_id && a.variant == b.variant) || (
        a.commit_sha == b.commit_sha && a.task_id == b.task_id && a.variant != b.variant),
    ensures
        filename_of(a) != filename_of(b),
{
    let h = hash_text(a.repo_url);
    let u = "_"@;
    let none = Seq::<char>::empty();
    if a.commit_sha != b.commit_sha {
        if escaped(a.commit_sha) == escaped(b.commit_sha) {
            lemma_escaped_injective(a.commit_sha, b.commit_sha);
        }
        let before = h + u;
        let after = u + escaped(a.task_id) + u + escaped(a.variant);
        lemma_middle_differs(before, escaped(a.commit_sha), escaped(b.commit_sha), after);
        assert(filename_of(a) =~= before + escaped(a.commit_sha) + after);
        assert(filename_of(b) =~= before + escaped(b.commit_sha) + after);
    } else if a.task_id != b.task_id {
        if escaped(a.task_id) == escaped(b.task_id) {
            lemma_escaped_injective(a.task_id, b.task_id);
        }
        let before = h + u + escaped(a.commit_sha) + u;
        let after = u + escaped(a.variant);
        lemma_middle_differs(before, escaped(a.task_id), escaped(b.task_id), after);
        assert(filename_of(a) =~= before + escaped(a.task_id) + after);
        assert(filename_of(b) =~= before + escaped(b.task_id) + after);
    } else {
        if escaped(a.variant) == escaped(b.variant) {
            lemma_escaped_injective(a.variant, b.variant);
        }
        let before = h + u + escaped(a.commit_sha) + u + escaped(a.task_id) + u;
        lemma_middle_differs(before, escaped(a.variant), escaped(b.variant), none);
        assert(filename_of(a) =~= before + escaped(a.variant) + none);
        assert(filename_of(b) =~= before + escaped(b.variant) + none);
    }
}

/// The hash of `s`, as sixteen hex digits. The hash is cheap and depends on
/// the order of the bytes; it is not cryptographic.
pub fn simple_hash(s: &str) -> (out: String)
    ensures
        out@ == hash_text(s@),
{
    let bytes = s.as_bytes();
    let mut hash: u64 = 0;
    let mut i: usize = 0;
    assert(bytes@.take(0) =~= Seq::empty());
    while i < bytes.len()
        invariant
            0 <= i <= bytes.len(),
            hash == hash_of(bytes@.take(i as int)),
        decreases bytes.len() - i,
    {
        assert(bytes@.take(i + 1).drop_last() =~= bytes@.take(i as int));
        hash = hash.wrapping_mul(31).wrapping_add(bytes[i] as u64);
        i += 1;
    }
    assert(bytes@.take(i as int) =~= bytes@);
    let mut out = String::new();
    push_fixed_hex(&mut out, hash, 16);
    assert(Seq::<char>::empty() + fixed_hex(hash as nat, 16) =~= fixed_hex(hash as nat, 16));
    out
}

impl CacheKey {
    /// The fingerprint of the run of `task_id` under `variant` on the
    /// commit `commit_sha` of `repo_url`.
    pub fn new(repo_url: &str, commit_sha: &str, task_id: &str, variant: &str) -> (key: CacheKey)
        ensures
            key@ == (CacheKeyView {
                repo_url: repo_url@,
                commit_sha: commit_sha@,
                task_id: task_id@,
                variant: variant@,
            }),
    {
        CacheKey {
            repo_url: String::from_str(repo_url),
            commit_sha: String::from_str(commit_sha),
            task_id: String::from_str(task_id),
            variant: String::from_str(variant),
        }
    }

    /// The file name under which the result of this fingerprint is kept.
    /// It is safe as a path component for every fingerprint: the commit,
    /// the task and the variant are escaped, so that no character of
    /// theirs can leave the directory of the cache.
    pub fn to_filename(&self) -> (name: String)
        ensures
            name@ == filename_of(self@),
            path_component_check(name@) == Ok::<(), PathError>(()),
    {
        let mut name = simple_hash(self.repo_url.as_str());
        push_text(&mut name, "_");
        push_escaped(&mut name, self.commit_sha.as_str());
        push_text(&mut name, "_");
        push_escaped(&mut name, self.task_id.as_str());
        push_text(&mut name, "_");
        push_escaped(&mut name, self.variant.as_str());
        proof {
            lemma_filename_is_path_safe(self@);
        }
        name
    }

    /// Whether two fingerprints are the same.
    pub fn matches(&self, other: &CacheKey) -> (r: bool)
        ensures
            r == (self@ == other@),
    {
        self.repo_url == other.repo_url && self.commit_sha == other.commit_sha && self.task_id
            == other.task_id && self.variant == other.variant
    }
}

/// Why a string cannot be used as a path component.
#[derive(Debug, Clone, Copy, PartialEq, Eq, Structural)]
pub enum PathError {
    /// The string is empty.
    Empty,
    /// The string holds a character other than an ASCII letter or digit, a
    /// hyphen or an underscore.
    Invalid,
}

/// What the validator says of `s`.
pub open spec fn path_component_check(s: Seq<char>) -> Result<(), PathError> {
    if s.len() == 0 {
        Err(PathError::Empty)
    } else if !all_path_safe(s) {
        Err(PathError::Invalid)
    } else {
        Ok(())
    }
}

/// Checks that `s` may be used as one component of a path: it is not empty
/// and holds only ASCII letters and digits, hyphens and underscores. A
/// caller checks every identifier with this before it builds a path from it.
pub fn validate_path_component(s: &str) -> (r: Result<(), PathError>)
    ensures
        r == path_component_check(s@),
{
    let chars = chars_of(s);
    if chars.len() == 0 {
        Err(PathError::Empty)
    } else if !chars_all_path_safe(&chars) {
        Err(PathError::Invalid)
    } else {
        Ok(())
    }
}

/// The name of the file that holds the report of the job `job_id`. A
/// name is given only for an identifier that the validator accepts, and it
/// stays in the directory it is joined to.
pub fn report_file_name(job_id: &str) -> (r: Result<String, PathError>)
    ensures
        match r {
            Ok(name) => {
                &&& path_component_check(job_id@) is Ok
                &&& name@ == job_id@ + ".json"@
                &&& is_plain_file_name(name@)
            },
            Err(e) => path_component_check(job_id@) == Err::<(), PathError>(e),
        },
{
    match validate_path_component(job_id) {
        Ok(()) => {
            let mut name = String::from_str(job_id);
            push_text(&mut name, ".json");
            proof {
                lemma_json_name_is_plain(job_id@);
            }
            Ok(name)
        },
        Err(e) => Err(e),
    }
}

/// A result as it is kept in the cache, with the time it was stored and the
/// time it expires, both as RFC 3339 text.
#[derive(Debug, Clone)]
pub struct CachedResult {
    pub key: CacheKey,
    pub result: RunResult,
    pub cached_at: String,
    pub expires_at: String,
}

/// Whether `entry` has expired at `now`.
pub open spec fn entry_expired(entry: CachedResult, now: Instant) -> bool {
    expired(rfc3339_instant(entry.expires_at@), now)
}

/// The first index at or after `from` of an entry for `key`, or
/// `entries.len()`.
pub open spec fn entry_index(entries: Seq<CachedResult>, key: CacheKeyView, from: int) -> int
    decreases entries.len() - from,
{
    if from < 0 || from >= entries.len() {
        entries.len() as int
    } else if entries[from].key@ == key {
        from
    } else {
        entry_index(entries, key, from + 1)
    }
}

/// The entry kept for `key`, if there is one.
pub open spec fn entry_of(entries: Seq<CachedResult>, key: CacheKeyView) -> Option<CachedResult> {
    let at = entry_index(entries, key, 0);
    if 0 <= at < entries.len() {
        Some(entries[at])
    } else {
        None
    }
}

/// The result that a lookup of `key` at `now` finds: that of the entry kept
/// for `key`, unless that entry has expired.
pub open spec fn found(entries: Seq<CachedResult>, key: CacheKeyView, now: Instant) -> Option<
    RunResult,
> {
    match entry_of(entries, key) {
        Some(entry) => if entry_expired(entry, now) {
            None
        } else {
            Some(entry.result)
        },
        None => None,
    }
}

/// `entries` with `entry` kept for its key: in place of the entry that was
/// kept for that key, or at the end.
pub open spec fn placed(entries: Seq<CachedResult>, entry: CachedResult) -> Seq<CachedResult> {
    let at = entry_index(entries, entry.key@, 0);
    if 0 <= at < entries.len() {
        entries.update(at, entry)
    } else {
        entries.push(entry)
    }
}

/// No two entries are kept for the same fingerprint.
pub open spec fn distinct_keys(entries: Seq<CachedResult>) -> bool {
    forall|i: int, j: int|
        0 <= i < j < entries.len() ==> (#[trigger] entries[i]).key@ != (#[trigger] entries[j]).key@
}

/// Where `entry_index` points there is an entry for the key, and there is
/// none before it.
pub proof fn lemma_entry_index(entries: Seq<CachedResult>, key: CacheKeyView, from: int)
    requires
        0 <= from <= entries.len(),
    ensures
        from <= entry_index(entries, key, from) <= entries.len(),
        entry_index(entries, key, from) < entries.len() ==> entries[entry_index(
            entries,
            key,
            from,
        )].key@ == key,
        forall|j: int| from <= j < entry_index(entries, key, from) ==> entries[j].key@ != key,
    decreases entries.len() - from,
{
    if from < entries.len() && entries[from].key@ != key {
        lemma_entry_index(entries, key, from + 1);
    }
}

/// Any index that holds the first entry for `key` at or after `from` is the
/// one `entry_index` gives.
pub proof fn lemma_entry_index_is(
    entries: Seq<CachedResult>,
    key: CacheKeyView,
    from: int,
    at: int,
)
    requires
        0 <= from <= at <= entries.len(),
        at < entries.len() ==> entries[at].key@ == key,
        forall|j: int| from <= j < at ==> entries[j].key@ != key,
    ensures
        entry_index(entries, key, from) == at,
    decreases at - from,
{
    if from < at {
        lemma_entry_index_is(entries, key, from + 1, at);
    }
}

/// A stored entry is the entry kept for its key.
pub proof fn lemma_placed_is_kept(entries: Seq<CachedResult>, entry: CachedResult)
    ensures
        entry_of(placed(entries, entry), entry.key@) == Some(entry),
{
    let key = entry.key@;
    let at = entry_index(entries, key, 0);
    lemma_entry_index(entries, key, 0);
    let after = placed(entries, entry);
    assert forall|j: int| 0 <= j < at implies after[j].key@ != key by {
        assert(after[j] == entries[j]);
    }
    lemma_entry_index_is(after, key, 0, at);
}

/// Storing an entry changes what is kept for no other key.
pub proof fn lemma_placed_keeps_others(
    entries: Seq<CachedResult>,
    entry: CachedResult,
    key: CacheKeyView,
)
    requires
        key != entry.key@,
    ensures
        entry_of(placed(entries, entry), key) == entry_of(entries, key),
{
    let at = entry_index(entries, entry.key@, 0);
    lemma_entry_index(entries, entry.key@, 0);
    let after = placed(entries, entry);
    let k = entry_index(entries, key, 0);
    lemma_entry_index(entries, key, 0);
    assert(k != at || k == entries.len());
    if k < entries.len() {
        assert forall|j: int| 0 <= j < k implies after[j].key@ != key by {
            if j != at {
                assert(after[j] == entries[j]);
            }
        }
        assert(after[k] == entries[k]);
        lemma_entry_index_is(after, key, 0, k);
    } else {
        assert forall|j: int| 0 <= j < after.len() implies after[j].key@ != key by {
            if j < entries.len() && j != at {
                assert(after[j] == entries[j]);
            }
        }
        lemma_entry_index_is(after, key, 0, after.len() as int);
    }
}

/// Storing an entry keeps the fingerprints distinct.
pub proof fn lemma_placed_distinct(entries: Seq<CachedResult>, entry: CachedResult)
    requires
        distinct_keys(entries),
    ensures
        distinct_keys(placed(entries, entry)),
{
    let at = entry_index(entries, entry.key@, 0);
    lemma_entry_index(entries, entry.key@, 0);
    let after = placed(entries, entry);
    assert forall|i: int, j: int| 0 <= i < j < after.len() implies (#[trigger] after[i]).key@
        != (#[trigger] after[j]).key@ by {
        if at < entries.len() {
            if i != at && j != at {
                assert(after[i] == entries[i] && after[j] == entries[j]);
            } else if i == at {
                assert(after[j] == entries[j]);
                assert(entries[i].key@ != entries[j].key@);
            } else {
                assert(after[i] == entries[i]);
                assert(entries[i].key@ != entries[j].key@);
            }
        } else {
            if j < entries.len() {
                assert(after[i] == entries[i] && after[j] == entries[j]);
            } else {
                assert(after[i] == entries[i]);
            }
        }
    }
}

/// Why a result could not be stored.
#[derive(Debug, Clone, Copy, PartialEq, Eq, Structural)]
pub enum CacheError {
    /// The time to live reaches past the last instant that can be counted.
    TtlOutOfRange,
    /// The time of storing or the time of expiry has no RFC 3339 text.
    TimeOutOfRange,
}

/// The time to live of a new manager, in seconds: seven days.
pub const DEFAULT_TTL_SECS: u64 = 604_800;

/// The size cap of a new manager, in megabytes.
pub const DEFAULT_MAX_SIZE_MB: u64 = 100;

/// The in-memory tier of the cache, with the time to live and the size cap
/// of the whole cache. It belongs to one session and is not shared.
pub struct CacheManager {
    ttl_secs: u64,
    max_size_mb: u64,
    memory_cache: Vec<CachedResult>,
}

/// Why a store at `now` under a time to live of `ttl_secs` fails, if it
/// does. A store needs a date for the time of storing and for the time of
/// expiry, `ttl_secs` later: it fails with `TimeOutOfRange` where one of
/// the two has none, and with `TtlOutOfRange` where the time of storing has
/// a date and the time of expiry cannot be counted.
pub open spec fn store_error(ttl_secs: u64, now: Instant) -> Option<CacheError> {
    if !has_date(now) {
        Some(CacheError::TimeOutOfRange)
    } else {
        match now.plus_secs(ttl_secs) {
            None => Some(CacheError::TtlOutOfRange),
            Some(expires) => if has_date(expires) {
                None
            } else {
                Some(CacheError::TimeOutOfRange)
            },
        }
    }
}

/// What storing `result` for `key` at `now` does to the entries `before`,
/// under a time to live of `ttl_secs`: the entries `after` and the answer
/// `r`. Where the store fails, nothing changes. Else the result is kept for
/// `key`, in place of what was kept for it, with the text of `now` and of
/// the instant `ttl_secs` later, and the answer is the index of the entry.
pub open spec fn stored(
    before: Seq<CachedResult>,
    ttl_secs: u64,
    key: CacheKey,
    result: RunResult,
    now: Instant,
    after: Seq<CachedResult>,
    r: Result<usize, CacheError>,
) -> bool {
    match store_error(ttl_secs, now) {
        Some(e) => r == Err::<usize, CacheError>(e) && after == before,
        None => {
            let expires = now.plus_secs(ttl_secs)->Some_0;
            &&& r is Ok
            &&& r->Ok_0 == entry_index(before, key@, 0)
            &&& r->Ok_0 < after.len()
            &&& after[r->Ok_0 as int].key == key
            &&& after[r->Ok_0 as int].result == result
            &&& rfc3339_text(now.secs, now.nanos) == Some(after[r->Ok_0 as int].cached_at@)
            &&& rfc3339_text(expires.secs, expires.nanos) == Some(
                after[r->Ok_0 as int].expires_at@,
            )
            &&& after == placed(before, after[r->Ok_0 as int])
        },
    }
}

/// What taking the entry `entry`, read from the disk tier for `key`, does
/// to the entries `before` at `now`: an entry that has not expired is kept
/// for `key`, with its result and its times, and a lookup of `key` finds
/// its result; an expired entry changes nothing. `taken` tells which.
pub open spec fn promoted(
    before: Seq<CachedResult>,
    key: CacheKey,
    entry: CachedResult,
    now: Instant,
    after: Seq<CachedResult>,
    taken: bool,
) -> bool {
    &&& taken == !entry_expired(entry, now)
    &&& !taken ==> after == before
    &&& taken ==> found(after, key@, now) == Some(entry.result)
    &&& taken ==> exists|kept: CachedResult|
        #![trigger placed(before, kept)]
        {
            &&& kept.key == key
            &&& kept.result == entry.result
            &&& kept.cached_at == entry.cached_at
            &&& kept.expires_at == entry.expires_at
            &&& after == placed(before, kept)
        }
}

impl CacheManager {
    /// The entries of the in-memory tier.
    pub closed spec fn entries(&self) -> Seq<CachedResult> {
        self.memory_cache@
    }

    /// The time to live of a stored result, in seconds.
    pub closed spec fn ttl(&self) -> u64 {
        self.ttl_secs
    }

    /// The size cap of the cache, in megabytes.
    pub closed spec fn max_size(&self) -> u64 {
        self.max_size_mb
    }

    /// No two entries are kept for the same fingerprint.
    pub open spec fn wf(&self) -> bool {
        distinct_keys(self.entries())
    }

    /// An empty cache with a time to live of seven days and a size cap of
    /// 100 megabytes.
    pub fn new() -> (c: CacheManager)
        ensures
            c.entries() == Seq::<CachedResult>::empty(),
            c.ttl() == DEFAULT_TTL_SECS,
            c.max_size() == DEFAULT_MAX_SIZE_MB,
            c.wf(),
    {
        CacheManager {
            ttl_secs: DEFAULT_TTL_SECS,
            max_size_mb: DEFAULT_MAX_SIZE_MB,
            memory_cache: Vec::new(),
        }
    }

    /// The same cache with a time to live of `ttl_secs` seconds.
    pub fn with_ttl(self, ttl_secs: u64) -> (c: CacheManager)
        ensures
            c.entries() == self.entries(),
            c.ttl() == ttl_secs,
            c.max_size() == self.max_size(),
    {
        CacheManager {
            ttl_secs,
            max_size_mb: self.max_size_mb,
            memory_cache: self.memory_cache,
        }
    }

    /// The same cache with a size cap of `max_size_mb` megabytes.
    pub fn with_max_size(self, max_size_mb: u64) -> (c: CacheManager)
        ensures
            c.entries() == self.entries(),
            c.ttl() == self.ttl(),
            c.max_size() == max_size_mb,
    {
        CacheManager { ttl_secs: self.ttl_secs, max_size_mb, memory_cache: self.memory_cache }
    }

    /// The index of the entry kept for `key`, or the number of entries.
    fn index_of(&self, key: &CacheKey) -> (at: usize)
        ensures
            at == entry_index(self.entries(), key@, 0),
            at <= self.entries().len(),
    {
        let mut i: usize = 0;
        while i < self.memory_cache.len()
            invariant
                0 <= i <= self.memory_cache.len(),
                entry_index(self.memory_cache@, key@, 0) == entry_index(
                    self.memory_cache@,
                    key@,
                    i as int,
                ),
            decreases self.memory_cache.len() - i,
        {
            if self.memory_cache[i].key.matches(key) {
                return i;
            }
            i += 1;
        }
        i
    }

    /// Whether an entry is kept for `key`, expired or not.
    pub fn contains_key(&self, key: &CacheKey) -> (r: bool)
        ensures
            r == (entry_of(self.entries(), key@) is Some),
    {
        self.index_of(key) < self.memory_cache.len()
    }

    /// The number of entries kept.
    pub fn len(&self) -> (n: usize)
        ensures
            n == self.entries().len(),
    {
        self.memory_cache.len()
    }

    /// The entry at index `at`.
    pub fn entry(&self, at: usize) -> (r: Option<&CachedResult>)
        ensures
            match r {
                Some(e) => at < self.entries().len() && *e == self.entries()[at as int],
                None => at >= self.entries().len(),
            },
    {
        if at < self.memory_cache.len() {
            Some(&self.memory_cache[at])
        } else {
            None
        }
    }

    /// Looks `key` up in the in-memory tier as of `now`.
    pub fn get_at(&self, key: &CacheKey, now: Instant) -> (r: Option<&RunResult>)
        ensures
            match r {
                Some(result) => found(self.entries(), key@, now) == Some(*result),
                None => found(self.entries(), key@, now) is None,
            },
    {
        let at = self.index_of(key);
        if at < self.memory_cache.len() {
            let entry = &self.memory_cache[at];
            if is_expired_at(entry.expires_at.as_str(), now) {
                None
            } else {
                Some(&entry.result)
            }
        } else {
            None
        }
    }

    /// Looks `key` up in the in-memory tier as of the current time. What is
    /// found is what [`CacheManager::get_at`] finds at some instant.
    pub fn get(&self, key: &CacheKey) -> (r: Option<&RunResult>)
        ensures
            exists|at: Instant|
                is_clock_reading(at) && match r {
                    Some(result) => #[trigger] found(self.entries(), key@, at) == Some(*result),
                    None => found(self.entries(), key@, at) is None,
                },
    {
        let at = now();
        let r = self.get_at(key, at);
        assert(is_clock_reading(at) && match r {
            Some(result) => found(self.entries(), key@, at) == Some(*result),
            None => found(self.entries(), key@, at) is None,
        });
        r
    }

    /// Keeps `entry` for its key, in place of what was kept for that key.
    /// Returns the index of the entry.
    pub fn insert(&mut self, entry: CachedResult) -> (at: usize)
        ensures
            final(self).entries() == placed(old(self).entries(), entry),
            at == entry_index(old(self).entries(), entry.key@, 0),
            at < final(self).entries().len(),
            final(self).entries()[at as int] == entry,
            final(self).ttl() == old(self).ttl(),
            final(self).max_size() == old(self).max_size(),
            old(self).wf() ==> final(self).wf(),
    {
        let at = self.index_of(&entry.key);
        proof {
            if self.wf() {
                lemma_placed_distinct(self.entries(), entry);
            }
        }
        if at < self.memory_cache.len() {
            self.memory_cache.set(at, entry);
        } else {
            self.memory_cache.push(entry);
        }
        at
    }

    /// Stores `result` for `key` as of `now`, in place of what was kept for
    /// `key`. Returns the index of the new entry. The store succeeds
    /// exactly where `now` and the time of expiry both have a date.
    pub fn set_at(&mut self, key: CacheKey, result: RunResult, now: Instant) -> (r: Result<
        usize,
        CacheError,
    >)
        ensures
            stored(old(self).entries(), old(self).ttl(), key, result, now, final(self).entries(), r),
            final(self).ttl() == old(self).ttl(),
            final(self).max_size() == old(self).max_size(),
            old(self).wf() ==> final(self).wf(),
    {
        let cached_at = match to_rfc3339(now) {
            Some(text) => text,
            None => {
                return Err(CacheError::TimeOutOfRange);
            },
        };
        let expires = match now.checked_add_secs(self.ttl_secs) {
            Some(expires) => expires,
            None => {
                return Err(CacheError::TtlOutOfRange);
            },
        };
        let expires_at = match to_rfc3339(expires) {
            Some(text) => text,
            None => {
                return Err(CacheError::TimeOutOfRange);
            },
        };
        let at = self.insert(CachedResult { key, result, cached_at, expires_at });
        Ok(at)
    }

    /// Stores `result` for `key` as of the current time. What happens is
    /// what [`CacheManager::set_at`] does at some reading of the clock: the
    /// store succeeds where that reading and the time of expiry both have
    /// a date. A time to live that leaves room for every date is never out
    /// of range.
    pub fn set(&mut self, key: CacheKey, result: RunResult) -> (r: Result<usize, CacheError>)
        ensures
            exists|at: Instant|
                is_clock_reading(at) && #[trigger] stored(
                    old(self).entries(),
                    old(self).ttl(),
                    key,
                    result,
                    at,
                    final(self).entries(),
                    r,
                ),
            old(self).ttl() + LAST_SECOND <= i64::MAX ==> r != Err::<usize, CacheError>(
                CacheError::TtlOutOfRange,
            ),
            final(self).ttl() == old(self).ttl(),
            final(self).max_size() == old(self).max_size(),
            old(self).wf() ==> final(self).wf(),
    {
        let at = now();
        let r = self.set_at(key, result, at);
        assert(is_clock_reading(at) && stored(
            old(self).entries(),
            old(self).ttl(),
            key,
            result,
            at,
            self.entries(),
            r,
        ));
        r
    }

    /// Drops every entry.
    pub fn clear_all(&mut self)
        ensures
            final(self).entries() == Seq::<CachedResult>::empty(),
            final(self).ttl() == old(self).ttl(),
            final(self).max_size() == old(self).max_size(),
            final(self).wf(),
    {
        self.memory_cache.clear();
    }
}

/// A stored result is found again for as long as it has not expired: after
/// `entry` was stored, a lookup of its key finds its result at every instant
/// at which the entry has not expired, and nothing once it has.
pub proof fn lemma_round_trip(entries: Seq<CachedResult>, entry: CachedResult, now: Instant)
    ensures
        found(placed(entries, entry), entry.key@, now) == if entry_expired(entry, now) {
            None
        } else {
            Some(entry.result)
        },
{
    lemma_placed_is_kept(entries, entry);
}

/// A result that was stored is found again: after a store that succeeded,
/// a lookup of the same key at any instant finds the stored result, unless
/// the new entry has expired at that instant.
pub proof fn lemma_set_then_get(
    before: Seq<CachedResult>,
    ttl_secs: u64,
    key: CacheKey,
    result: RunResult,
    now: Instant,
    after: Seq<CachedResult>,
    r: Result<usize, CacheError>,
    later: Instant,
)
    requires
        stored(before, ttl_secs, key, result, now, after, r),
        r is Ok,
    ensures
        found(after, key@, later) == if entry_expired(after[r->Ok_0 as int], later) {
            None
        } else {
            Some(result)
        },
{
    lemma_round_trip(before, after[r->Ok_0 as int], later);
}

/// A store that failed changed nothing.
pub proof fn lemma_failed_set_changes_nothing(
    before: Seq<CachedResult>,
    ttl_secs: u64,
    key: CacheKey,
    result: RunResult,
    now: Instant,
    after: Seq<CachedResult>,
    r: Result<usize, CacheError>,
)
    requires
        stored(before, ttl_secs, key, result, now, after, r),
        r is Err,
    ensures
        after == before,
{
}

/// Storing a result changes what a lookup of any other key finds at no
/// instant.
pub proof fn lemma_other_keys_untouched(
    entries: Seq<CachedResult>,
    entry: CachedResult,
    key: CacheKeyView,
    now: Instant,
)
    requires
        key != entry.key@,
    ensures
        found(placed(entries, entry), key, now) == found(entries, key, now),
{
    lemma_placed_keeps_others(entries, entry, key);
}

/// `entries` without those of the repository `repo_url`.
pub open spec fn without_repo(entries: Seq<CachedResult>, repo_url: Seq<char>) -> Seq<CachedResult>
    decreases entries.len(),
{
    if entries.len() == 0 {
        Seq::empty()
    } else {
        let before = without_repo(entries.drop_last(), repo_url);
        if entries.last().key.repo_url@ == repo_url {
            before
        } else {
            before.push(entries.last())
        }
    }
}

impl CacheManager {
    /// Drops the entries of the repository `repo_url`, and of no other: a
    /// repository whose address only begins with `repo_url` keeps its
    /// entries. Returns the prefix that the file names of the dropped
    /// entries share.
    pub fn clear_repo(&mut self, repo_url: &str) -> (prefix: String)
        ensures
            final(self).entries() == without_repo(old(self).entries(), repo_url@),
            prefix@ == hash_text(repo_url@),
            final(self).ttl() == old(self).ttl(),
            final(self).max_size() == old(self).max_size(),
            old(self).wf() ==> final(self).wf(),
    {
        let wanted = String::from_str(repo_url);
        let ghost before = self.memory_cache@;
        let ghost mut done: int = 0;
        let mut i: usize = 0;
        assert(before.take(0) =~= Seq::empty());
        assert(Seq::<CachedResult>::empty() + before.skip(0) =~= before);
        while i < self.memory_cache.len()
            invariant
                0 <= done <= before.len(),
                wanted@ == repo_url@,
                i == without_repo(before.take(done), repo_url@).len(),
                self.memory_cache@ == without_repo(before.take(done), repo_url@) + before.skip(
                    done,
                ),
                self.ttl_secs == old(self).ttl_secs,
                self.max_size_mb == old(self).max_size_mb,
                distinct_keys(before) ==> distinct_keys(self.memory_cache@),
            decreases self.memory_cache.len() - i,
        {
            let ghost kept = without_repo(before.take(done), repo_url@);
            let ghost current = self.memory_cache@;
            assert(current[i as int] == before[done]);
            assert(before.take(done + 1).drop_last() =~= before.take(done));
            assert(before.take(done + 1).last() == before[done]);
            if self.memory_cache[i].key.repo_url == wanted {
                self.memory_cache.remove(i);
                assert(self.memory_cache@ =~= kept + before.skip(done + 1));
                assert(distinct_keys(before) ==> distinct_keys(self.memory_cache@)) by {
                    if distinct_keys(before) {
                        let after = self.memory_cache@;
                        assert forall|a: int, b: int| 0 <= a < b < after.len() implies (
                        #[trigger] after[a]).key@ != (#[trigger] after[b]).key@ by {
                            let a0 = if a < i { a } else { a + 1 };
                            let b0 = if b < i { b } else { b + 1 };
                            assert(after[a] == current[a0]);
                            assert(after[b] == current[b0]);
                        }
                    }
                }
            } else {
                assert(self.memory_cache@ =~= kept.push(before[done]) + before.skip(done + 1));
                i += 1;
            }
            proof {
                done = done + 1;
            }
        }
        assert(done == before.len()) by {
            assert(self.memory_cache@.len() == i + before.skip(done).len());
        }
        assert(before.take(done) =~= before);
        assert(self.memory_cache@ =~= without_repo(before, repo_url@));
        simple_hash(repo_url)
    }
}

/// A file of the disk tier, as a directory listing shows it.
#[derive(Debug, Clone)]
pub struct CacheFile {
    pub name: String,
    /// When the file was last modified.
    pub modified: Instant,
    /// The size of the file in bytes.
    pub size: u64,
}

/// The size in bytes that the cache may reach before files are evicted.
pub open spec fn cap_bytes(max_size_mb: u64) -> nat {
    (max_size_mb * 1_000_000) as nat
}

/// The size in bytes down to which an eviction brings the cache: 80% of the
/// cap, so that the next write does not evict again.
pub open spec fn target_bytes(max_size_mb: u64) -> nat {
    cap_bytes(max_size_mb) * 80 / 100
}

/// The index of the file that was modified first among the first `n` of
/// `files`; of two modified at the same instant, the one listed first.
pub open spec fn oldest_among(files: Seq<CacheFile>, n: int) -> int
    decreases n,
{
    if n <= 1 {
        0
    } else {
        let best = oldest_among(files, n - 1);
        if files[best].modified.is_after(files[n - 1].modified) {
            n - 1
        } else {
            best
        }
    }
}

/// `current` less `size`, and 0 where that would be negative.
pub open spec fn less(current: nat, size: u64) -> nat {
    if current >= size {
        (current - size) as nat
    } else {
        0
    }
}

/// The files that are evicted, in the order of eviction, from a cache of
/// `current` bytes that is to come down to `target` bytes: the oldest file
/// goes first, and files go until the size is at most `target` or none is
/// left.
pub open spec fn evictions(files: Seq<CacheFile>, current: nat, target: nat) -> Seq<CacheFile>
    decreases files.len(),
{
    let at = oldest_among(files, files.len() as int);
    if files.len() == 0 || current <= target || at < 0 || at >= files.len() {
        Seq::empty()
    } else {
        seq![files[at]] + evictions(files.remove(at), less(current, files[at].size), target)
    }
}

/// The size of the cache once `evictions` has taken place.
pub open spec fn size_after(files: Seq<CacheFile>, current: nat, target: nat) -> nat
    decreases files.len(),
{
    let at = oldest_among(files, files.len() as int);
    if files.len() == 0 || current <= target || at < 0 || at >= files.len() {
        current
    } else {
        size_after(files.remove(at), less(current, files[at].size), target)
    }
}

/// The files to evict from a cache of `total` bytes with the candidates
/// `files`, under a cap of `max_size_mb` megabytes: none while the cache is
/// within the cap.
pub open spec fn eviction_plan_of(files: Seq<CacheFile>, total: u64, max_size_mb: u64) -> Seq<
    CacheFile,
> {
    if total <= cap_bytes(max_size_mb) {
        Seq::empty()
    } else {
        evictions(files, total as nat, target_bytes(max_size_mb))
    }
}

/// The oldest file is one of the files.
pub proof fn lemma_oldest_among(files: Seq<CacheFile>, n: int)
    requires
        1 <= n <= files.len(),
    ensures
        0 <= oldest_among(files, n) < n,
        forall|j: int|
            0 <= j < n ==> !files[oldest_among(files, n)].modified.is_after(
                #[trigger] files[j].modified,
            ),
    decreases n,
{
    if n > 1 {
        lemma_oldest_among(files, n - 1);
    }
}

/// An eviction ends within the target, or with every candidate evicted.
pub proof fn lemma_eviction_reaches_target(files: Seq<CacheFile>, current: nat, target: nat)
    ensures
        size_after(files, current, target) <= target || evictions(files, current, target).len()
            == files.len(),
        size_after(files, current, target) <= current,
    decreases files.len(),
{
    if files.len() > 0 && current > target {
        lemma_oldest_among(files, files.len() as int);
        let at = oldest_among(files, files.len() as int);
        lemma_eviction_reaches_target(files.remove(at), less(current, files[at].size), target);
    }
}

/// Every evicted file is one of the candidates, and no more files are
/// evicted than there are candidates.
pub proof fn lemma_evictions_are_files(files: Seq<CacheFile>, current: nat, target: nat)
    ensures
        forall|e: CacheFile| #[trigger]
            evictions(files, current, target).contains(e) ==> files.contains(e),
        evictions(files, current, target).len() <= files.len(),
    decreases files.len(),
{
    if files.len() > 0 && current > target {
        lemma_oldest_among(files, files.len() as int);
        let at = oldest_among(files, files.len() as int);
        let rest = files.remove(at);
        let tail = evictions(rest, less(current, files[at].size), target);
        lemma_evictions_are_files(rest, less(current, files[at].size), target);
        let all = evictions(files, current, target);
        assert(all == seq![files[at]] + tail);
        assert forall|e: CacheFile| #[trigger] all.contains(e) implies files.contains(e) by {
            let k = choose|k: int| 0 <= k < all.len() && all[k] == e;
            if k == 0 {
                assert(files[at] == e);
            } else {
                assert(tail[k - 1] == e);
                assert(tail.contains(e));
                let j = choose|j: int| 0 <= j < rest.len() && rest[j] == e;
                if j < at {
                    assert(files[j] == e);
                } else {
                    assert(files[j + 1] == e);
                }
            }
        }
    }
}

/// Files are evicted oldest first: no evicted file was modified after one
/// that is evicted later.
pub proof fn lemma_evictions_oldest_first(files: Seq<CacheFile>, current: nat, target: nat)
    ensures
        forall|i: int, j: int|
            0 <= i < j < evictions(files, current, target).len() ==> !(#[trigger] evictions(
                files,
                current,
                target,
            )[i]).modified.is_after((#[trigger] evictions(files, current, target)[j]).modified),
    decreases files.len(),
{
    if files.len() > 0 && current > target {
        lemma_oldest_among(files, files.len() as int);
        let at = oldest_among(files, files.len() as int);
        let rest = files.remove(at);
        let tail = evictions(rest, less(current, files[at].size), target);
        lemma_evictions_oldest_first(rest, less(current, files[at].size), target);
        lemma_evictions_are_files(rest, less(current, files[at].size), target);
        let all = evictions(files, current, target);
        assert(all == seq![files[at]] + tail);
        assert forall|i: int, j: int| 0 <= i < j < all.len() implies !(#[trigger] all[i])
            .modified.is_after((#[trigger] all[j]).modified) by {
            assert(all[j] == tail[j - 1]);
            if i == 0 {
                assert(tail.contains(tail[j - 1]));
                assert(rest.contains(tail[j - 1]));
                let k = choose|k: int| 0 <= k < rest.len() && rest[k] == tail[j - 1];
                if k < at {
                    assert(files[k] == tail[j - 1]);
                } else {
                    assert(files[k + 1] == tail[j - 1]);
                }
            } else {
                assert(all[i] == tail[i - 1]);
            }
        }
    }
}

/// The index of the file that was modified first; of two modified at the
/// same instant, the one listed first.
fn oldest(files: &Vec<CacheFile>) -> (at: usize)
    requires
        files.len() > 0,
    ensures
        at == oldest_among(files@, files.len() as int),
        at < files.len(),
{
    let mut best: usize = 0;
    let mut n: usize = 1;
    while n < files.len()
        invariant
            1 <= n <= files.len(),
            best == oldest_among(files@, n as int),
            best < n,
        decreases files.len() - n,
    {
        if files[best].modified.after(&files[n].modified) {
            best = n;
        }
        n += 1;
    }
    best
}

impl CacheManager {
    /// Plans an eviction. `total_size` is the size of the disk tier in
    /// bytes and `files` are the files that may be evicted. While the size
    /// is within the cap, nothing is evicted. Beyond it, the oldest files
    /// go, oldest first, until the size is at most 80% of the cap or no
    /// candidate is left. Under a cap of 0 every candidate goes that it
    /// takes to bring the size down to 0.
    pub fn eviction_plan(&self, total_size: u64, files: Vec<CacheFile>) -> (plan: Vec<CacheFile>)
        ensures
            plan@ == eviction_plan_of(files@, total_size, self.max_size()),
    {
        let cap: u128 = (self.max_size_mb as u128) * 1_000_000;
        if (total_size as u128) <= cap {
            return Vec::new();
        }
        let target: u128 = cap * 80 / 100;
        let mut rest = files;
        let mut current: u64 = total_size;
        let mut plan: Vec<CacheFile> = Vec::new();
        assert(plan@ + evictions(rest@, current as nat, target as nat) =~= evictions(
            files@,
            total_size as nat,
            target as nat,
        ));
        while rest.len() > 0 && (current as u128) > target
            invariant
                target == target_bytes(self.max_size()),
                plan@ + evictions(rest@, current as nat, target as nat) == evictions(
                    files@,
                    total_size as nat,
                    target as nat,
                ),
            decreases rest.len(),
        {
            let at = oldest(&rest);
            let ghost before = rest@;
            let ghost planned = plan@;
            let file = rest.remove(at);
            current = current.saturating_sub(file.size);
            plan.push(file);
            assert(planned + (seq![before[at as int]] + evictions(
                rest@,
                current as nat,
                target as nat,
            )) =~= plan@ + evictions(rest@, current as nat, target as nat));
        }
        assert(plan@ + Seq::<CacheFile>::empty() =~= plan@);
        plan
    }
}

/// The sum of `sizes`.
pub open spec fn sum_of(sizes: Seq<u64>) -> nat
    decreases sizes.len(),
{
    if sizes.len() == 0 {
        0
    } else {
        sum_of(sizes.drop_last()) + sizes.last() as nat
    }
}

/// The size of a directory whose files have the sizes `sizes`: their sum,
/// or the largest `u64` where the sum is larger.
pub fn total_size(sizes: &Vec<u64>) -> (total: u64)
    ensures
        total == if sum_of(sizes@) <= u64::MAX {
            sum_of(sizes@)
        } else {
            u64::MAX as nat
        },
{
    let mut total: u64 = 0;
    let mut i: usize = 0;
    assert(sizes@.take(0) =~= Seq::empty());
    while i < sizes.len()
        invariant
            0 <= i <= sizes.len(),
            total == if sum_of(sizes@.take(i as int)) <= u64::MAX {
                sum_of(sizes@.take(i as int))
            } else {
                u64::MAX as nat
            },
        decreases sizes.len() - i,
    {
        assert(sizes@.take(i + 1).drop_last() =~= sizes@.take(i as int));
        total = total.saturating_add(sizes[i]);
        i += 1;
    }
    assert(sizes@.take(i as int) =~= sizes@);
    total
}

/// A file name that marks an entry of the cache: it ends in `.json` and
/// has something before that.
pub open spec fn is_entry_name(name: Seq<char>) -> bool {
    name.len() > 5 && crate::text::has_suffix(name, ".json"@)
}

/// Whether `name` is the file name of an entry of the cache.
pub fn is_entry_file(name: &str) -> (r: bool)
    ensures
        r == is_entry_name(name@),
{
    let chars = chars_of(name);
    chars.len() > 5 && crate::text::ends_with(name, ".json")
}

/// The name of the file that holds the entry of `key`. For every
/// fingerprint it stays in the directory it is joined to.
pub fn entry_file_name(key: &CacheKey) -> (name: String)
    ensures
        name@ == filename_of(key@) + ".json"@,
        is_plain_file_name(name@),
        is_entry_name(name@),
{
    let mut name = key.to_filename();
    push_text(&mut name, ".json");
    proof {
        lemma_filename_is_path_safe(key@);
        lemma_json_name_is_plain(filename_of(key@));
        reveal_strlit(".json");
        let stem = filename_of(key@);
        assert(name@.subrange(name@.len() - 5, name@.len() as int) =~= ".json"@);
    }
    name
}

/// The index of the last dot of `s` before index `to`, or -1.
pub open spec fn last_dot(s: Seq<char>, to: int) -> int
    decreases to,
{
    if to <= 0 {
        -1
    } else if to <= s.len() && s[to - 1] == '.' {
        to - 1
    } else {
        last_dot(s, to - 1)
    }
}

/// The name of a file without its extension: what stands before the last
/// dot, or the whole name where it has no dot but a leading one.
pub open spec fn stem_of(name: Seq<char>) -> Seq<char> {
    let dot = last_dot(name, name.len() as int);
    if dot <= 0 || name == ".."@ {
        name
    } else {
        name.take(dot)
    }
}

/// The identifier of the report that the file `file_name` holds: the name
/// without its extension.
pub fn report_id(file_name: &str) -> (id: String)
    ensures
        id@ == stem_of(file_name@),
{
    let chars = chars_of(file_name);
    let mut to: usize = chars.len();
    while to > 0 && chars[to - 1] != '.'
        invariant
            0 <= to <= chars.len(),
            last_dot(chars@, chars.len() as int) == last_dot(chars@, to as int),
        decreases to,
    {
        to -= 1;
    }
    if to <= 1 || text_eq(file_name, "..") {
        String::from_str(file_name)
    } else {
        string_of_range(&chars, 0, to - 1)
    }
}

/// What a look at the disk tier found for a key.
#[derive(Debug, Clone)]
pub enum DiskRead {
    /// There is no file for the key.
    Missing,
    /// There is a file, but it could not be read or is no entry.
    Unreadable,
    /// The entry that the file holds.
    Entry(CachedResult),
}

/// How a lookup in the disk tier ends.
#[derive(Debug, Clone, Copy, PartialEq, Eq, Structural)]
pub enum DiskOutcome {
    /// The entry was taken into the in-memory tier, at the index given.
    Hit(usize),
    /// Nothing was found. A file that cannot be read counts as nothing: a
    /// cache that cannot be read must not stop the work it serves.
    Miss,
    /// The entry has expired: it is not taken, and its file is to be
    /// removed.
    Stale,
}

/// What a lookup in the disk tier for `key` at `now` does, given what was
/// read: the entries `after` and the outcome. An entry that has not expired
/// is kept for `key` and is what a lookup of `key` then finds; anything
/// else leaves the entries as they were.
pub open spec fn resolved(
    before: Seq<CachedResult>,
    key: CacheKey,
    read: DiskRead,
    now: Instant,
    after: Seq<CachedResult>,
    outcome: DiskOutcome,
) -> bool {
    match read {
        DiskRead::Missing => outcome == DiskOutcome::Miss && after == before,
        DiskRead::Unreadable => outcome == DiskOutcome::Miss && after == before,
        DiskRead::Entry(entry) => if entry_expired(entry, now) {
            outcome == DiskOutcome::Stale && after == before
        } else {
            &&& outcome == DiskOutcome::Hit(entry_index(before, key@, 0) as usize)
            &&& entry_index(before, key@, 0) < after.len()
            &&& after[entry_index(before, key@, 0)].result == entry.result
            &&& found(after, key@, now) == Some(entry.result)
            &&& promoted(before, key, entry, now, after, true)
        },
    }
}

impl CacheManager {
    /// Ends a lookup that missed in memory, with what the disk tier holds
    /// for `key`, as of `now`.
    pub fn resolve_at(&mut self, key: CacheKey, read: DiskRead, now: Instant) -> (outcome:
        DiskOutcome)
        ensures
            resolved(old(self).entries(), key, read, now, final(self).entries(), outcome),
            final(self).ttl() == old(self).ttl(),
            final(self).max_size() == old(self).max_size(),
            old(self).wf() ==> final(self).wf(),
    {
        match read {
            DiskRead::Missing => DiskOutcome::Miss,
            DiskRead::Unreadable => DiskOutcome::Miss,
            DiskRead::Entry(entry) => {
                if is_expired_at(entry.expires_at.as_str(), now) {
                    return DiskOutcome::Stale;
                }
                let kept = CachedResult {
                    key,
                    result: entry.result,
                    cached_at: entry.cached_at,
                    expires_at: entry.expires_at,
                };
                proof {
                    lemma_placed_is_kept(self.entries(), kept);
                }
                let at = self.insert(kept);
                DiskOutcome::Hit(at)
            },
        }
    }

    /// Ends a lookup that missed in memory, with what the disk tier holds
    /// for `key`, as of the current time. What happens is what
    /// [`CacheManager::resolve_at`] does at some instant.
    pub fn resolve(&mut self, key: CacheKey, read: DiskRead) -> (outcome: DiskOutcome)
        ensures
            exists|at: Instant|
                is_clock_reading(at) && #[trigger] resolved(
                    old(self).entries(),
                    key,
                    read,
                    at,
                    final(self).entries(),
                    outcome,
                ),
            final(self).ttl() == old(self).ttl(),
            final(self).max_size() == old(self).max_size(),
            old(self).wf() ==> final(self).wf(),
    {
        let at = now();
        let outcome = self.resolve_at(key, read, at);
        assert(is_clock_reading(at) && resolved(
            old(self).entries(),
            key,
            read,
            at,
            self.entries(),
            outcome,
        ));
        outcome
    }
}

/// The file `file_name` holds a result of the repository `repo_url`: its
/// name begins with the hash of the repository.
pub open spec fn is_repo_file_name(file_name: Seq<char>, repo_url: Seq<char>) -> bool {
    crate::text::has_prefix(file_name, hash_text(repo_url))
}

/// Whether the file `file_name` holds a result of the repository
/// `repo_url`.
pub fn is_repo_file(file_name: &str, repo_url: &str) -> (r: bool)
    ensures
        r == is_repo_file_name(file_name@, repo_url@),
{
    let prefix = simple_hash(repo_url);
    crate::text::starts_with(file_name, prefix.as_str())
}

/// The file of every fingerprint of a repository is one of the files of the
/// repository.
pub proof fn lemma_entry_file_is_repo_file(key: CacheKeyView)
    ensures
        is_repo_file_name(filename_of(key) + ".json"@, key.repo_url),
{
    let name = filename_of(key) + ".json"@;
    let prefix = hash_text(key.repo_url);
    assert(name.subrange(0, prefix.len() as int) =~= prefix);
}

} // verus!
