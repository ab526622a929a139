//! The generic resolver around the external search-and-download tool: the
//! command line handed to it, how its JSON answer becomes a track
//! descriptor, and the process-local cache that amortizes its slow lookups —
//! a canonical-URL-keyed map with a validity window, backed by the persistent
//! query index, and refreshable in bulk.
//!
//! Invoking the tool and parsing its JSON happen at the caller's edge; this
//! module takes the answer's plain fields.
use vstd::prelude::*;

verus! {

use crate::storage::Storage;
use crate::storage::StorageError;
use crate::strings::chars_of;
use crate::strings::seq_starts_with;
use crate::strings::starts_with;
use crate::strings::str_eq;
use crate::track_info::Metadata;

/// An in-memory cache entry is served for this long after it was fetched.
pub const ENTRY_TTL_MS: u64 = 3600000;

/// Bulk refreshes closer together than this are no-ops.
pub const REFRESH_TTL_MS: u64 = 86400000;

/// The plain fields of the JSON object the downloader prints for one item.
#[derive(Clone, Debug, PartialEq, Eq)]
pub struct DownloaderOutput {
    /// Item title, if the site reports one.
    pub title: Option<String>,
    /// Canonical page URL, if the site reports one.
    pub webpage_url: Option<String>,
    /// Thumbnail URL, if any.
    pub thumbnail: Option<String>,
    /// Duration in whole seconds, if any.
    pub duration_sec: Option<u32>,
    /// Size of the media in bytes, if known.
    pub filesize: Option<u64>,
    /// Direct media URL.
    pub url: String,
}

/// A lazily-materialized downloader track: the direct media request and the
/// metadata shown to the user.
#[derive(Clone, Debug, PartialEq, Eq)]
pub struct YtDlp {
    /// Direct media URL the audio bytes are fetched from.
    pub request_url: String,
    /// Size of the media in bytes, if known.
    pub content_length: Option<u64>,
    /// Track metadata.
    pub metadata: Metadata,
}

impl YtDlp {
    /// Provides the track metadata.
    pub fn metadata(&self) -> (r: &Metadata)
        ensures
            r == self.metadata,
    {
        &self.metadata
    }
}

/// `http`, the prefix telling a URL query from a free-text search.
pub open spec fn http_prefix() -> Seq<char> {
    seq!['h', 't', 't', 'p']
}

/// `https://www.youtube.com/results?search_query=`, the page standing in for
/// a source URL when a free-text search reported none.
pub open spec fn search_results_prefix() -> Seq<char> {
    "https://www.youtube.com/results?search_query="@
}

/// Which source URL a resolved item gets: a URL query names its own page; a
/// free-text query gets the reported page URL, or the search-results page as
/// a last resort.
pub open spec fn source_url_spec(q: Seq<char>, webpage: Option<Seq<char>>) -> Seq<char> {
    if seq_starts_with(q, http_prefix()) {
        q
    } else {
        match webpage {
            Some(w) => w,
            None => search_results_prefix() + q,
        }
    }
}

pub fn http_prefix_vec() -> (r: Vec<char>)
    ensures
        r@ == http_prefix(),
{
    proof {
        reveal_strlit("http");
        assert("http"@ =~= http_prefix());
    }
    chars_of("http")
}

/// Turns the downloader's answer for `query` into a track descriptor: the
/// title falls back to the query itself, the source URL follows
/// [`source_url_spec`], and a zero duration counts as absent.
pub fn from_output(query: &str, out: DownloaderOutput) -> (r: YtDlp)
    ensures
        r.request_url == out.url,
        r.content_length == out.filesize,
        r.metadata.title@ == (match out.title {
            Some(t) => t@,
            None => query@,
        }),
        r.metadata.source_url@ == source_url_spec(
            query@,
            match out.webpage_url {
                Some(w) => Some(w@),
                None => None,
            },
        ),
        r.metadata.thumbnail_url == out.thumbnail,
        r.metadata.duration_sec == (if out.duration_sec == Some(0u32) {
            Option::<u32>::None
        } else {
            out.duration_sec
        }),
        r.metadata.wf(),
{
    let title = match out.title {
        Some(t) => t,
        None => query.to_owned(),
    };
    let q = chars_of(query);
    let httpv = http_prefix_vec();
    let source_url: String = if starts_with(&q, &httpv) {
        query.to_owned()
    } else {
        match out.webpage_url {
            Some(w) => w,
            None => {
                let base = String::from_str("https://www.youtube.com/results?search_query=");
                base.concat(query)
            },
        }
    };
    let duration_sec = match out.duration_sec {
        Some(d) => crate::nonzero_u32(d),
        None => None,
    };
    YtDlp {
        request_url: out.url,
        content_length: out.filesize,
        metadata: Metadata { title, source_url, thumbnail_url: out.thumbnail, duration_sec },
    }
}

/// The command line handed to the external tool: the query, JSON output on
/// stdout, the best audio-only format, no playlist expansion, and plain text
/// treated as a site search.
pub fn command_args(query: &str) -> (r: Vec<String>)
    ensures
        r@.len() == 7,
        r@[0]@ == query@,
        r@[1]@ == "-j"@,
        r@[2]@ == "-f"@,
        r@[3]@ == "ba[abr>0][vcodec=none]/best"@,
        r@[4]@ == "--no-playlist"@,
        r@[5]@ == "--default-search"@,
        r@[6]@ == "ytsearch"@,
{
    let mut args: Vec<String> = Vec::new();
    args.push(query.to_owned());
    args.push(String::from_str("-j"));
    args.push(String::from_str("-f"));
    args.push(String::from_str("ba[abr>0][vcodec=none]/best"));
    args.push(String::from_str("--no-playlist"));
    args.push(String::from_str("--default-search"));
    args.push(String::from_str("ytsearch"));
    args
}

// ---------------------------------------------------------------------------
// The process-local cache
// ---------------------------------------------------------------------------
/// One cached resolution: when it was fetched and what it resolved to.
#[derive(Clone, Debug, PartialEq, Eq)]
pub struct CacheEntry {
    /// When this entry was fetched, in the caller's clock.
    pub loaded_at_ms: u64,
    /// The resolved track.
    pub yt_dlp: YtDlp,
}

/// An entry fetched at `loaded_at_ms` is still served at `now_ms`.
pub open spec fn fresh_at(e: CacheEntry, now_ms: u64) -> bool {
    now_ms - e.loaded_at_ms < ENTRY_TTL_MS
}

/// The map an association list stands for; a later pair for the same URL
/// overrides an earlier one.
pub open spec fn map_of(s: Seq<(String, CacheEntry)>) -> Map<Seq<char>, CacheEntry>
    decreases s.len(),
{
    if s.len() == 0 {
        Map::empty()
    } else {
        map_of(s.drop_last()).insert(s.last().0@, s.last().1)
    }
}

/// No two pairs share a URL.
pub open spec fn keys_unique(s: Seq<(String, CacheEntry)>) -> bool {
    forall|i: int, j: int| 0 <= i < j < s.len() ==> (#[trigger] s[i]).0@ != (#[trigger] s[j]).0@
}

/// Where nothing at or past `i` matches `u`, the first `i` pairs already
/// decide what the whole list says about `u`.
proof fn lemma_map_of_unmatched(s: Seq<(String, CacheEntry)>, u: Seq<char>, i: int)
    requires
        0 <= i <= s.len(),
        forall|j: int| i <= j < s.len() ==> (#[trigger] s[j]).0@ != u,
    ensures
        map_of(s).contains_key(u) == map_of(s.take(i)).contains_key(u),
        map_of(s).contains_key(u) ==> map_of(s)[u] == map_of(s.take(i))[u],
    decreases s.len() - i,
{
    if i < s.len() {
        lemma_map_of_unmatched(s, u, i + 1);
        assert(s.take(i + 1).drop_last() =~= s.take(i));
        assert(s.take(i + 1).last() == s[i]);
        assert(map_of(s.take(i + 1)) == map_of(s.take(i)).insert(s[i].0@, s[i].1));
    } else {
        assert(s.take(i) =~= s);
    }
}

/// A pair that no later pair overrides decides what the list says about its
/// URL.
proof fn lemma_map_of_match(s: Seq<(String, CacheEntry)>, u: Seq<char>, i: int)
    requires
        0 <= i < s.len(),
        s[i].0@ == u,
        forall|j: int| i < j < s.len() ==> (#[trigger] s[j]).0@ != u,
    ensures
        map_of(s).contains_key(u),
        map_of(s)[u] == s[i].1,
    decreases s.len() - i,
{
    lemma_map_of_unmatched(s, u, i + 1);
    assert(s.take(i + 1).drop_last() =~= s.take(i));
    assert(s.take(i + 1).last() == s[i]);
    assert(map_of(s.take(i + 1)) == map_of(s.take(i)).insert(s[i].0@, s[i].1));
}

/// How many refresh results succeeded.
pub open spec fn count_some(s: Seq<(String, Option<YtDlp>)>) -> nat
    decreases s.len(),
{
    if s.len() == 0 {
        0
    } else {
        count_some(s.drop_last()) + (if s.last().1 is Some {
            1nat
        } else {
            0nat
        })
    }
}

/// The process-local resolver cache: recently resolved tracks keyed by their
/// canonical URL, each valid for a fixed window, over the persistent
/// query-to-URL index.
pub struct Resolver {
    /// The persistent store holding the query index.
    storage: Storage,
    /// Canonical URL to cached resolution; one pair per URL.
    entries: Vec<(String, CacheEntry)>,
    /// When the last bulk refresh ran, gating how often one may run.
    last_refresh_ms: u64,
}

impl Resolver {
    pub closed spec fn wf(&self) -> bool {
        keys_unique(self.entries@)
    }

    /// The in-memory cache, as a map from canonical URL to entry.
    pub closed spec fn cache(&self) -> Map<Seq<char>, CacheEntry> {
        map_of(self.entries@)
    }

    /// How many URLs the in-memory cache holds.
    pub closed spec fn cache_size(&self) -> nat {
        self.entries@.len()
    }

    /// The persistent query index underneath.
    pub closed spec fn queries(&self) -> Map<Seq<char>, Seq<char>> {
        self.storage.queries()
    }

    /// When the last bulk refresh ran.
    pub closed spec fn last_refresh(&self) -> u64 {
        self.last_refresh_ms
    }

    /// A new resolver over the given persistent store, with an empty
    /// in-memory cache and no refresh on record.
    pub fn new(storage: Storage) -> (r: Resolver)
        ensures
            r.wf(),
            r.cache() == Map::<Seq<char>, CacheEntry>::empty(),
            r.cache_size() == 0,
            r.queries() == storage.queries(),
            r.last_refresh() == 0,
    {
        Resolver { storage, entries: Vec::new(), last_refresh_ms: 0 }
    }

    /// The query to resolve after consulting the persistent index: a URL
    /// stands as it is; for free text, the canonical URL it previously
    /// resolved to, when the index knows one (an index error reads as a
    /// miss).
    pub fn effective_query(&self, query: &str) -> (r: String)
        ensures
            seq_starts_with(query@, http_prefix()) ==> r@ == query@,
            !seq_starts_with(query@, http_prefix()) ==> (r@ == query@ || (
            self.queries().contains_key(query@) && r@ == self.queries()[query@])),
    {
        let q = chars_of(query);
        let httpv = http_prefix_vec();
        if starts_with(&q, &httpv) {
            query.to_owned()
        } else {
            match self.storage.load(query) {
                Some(url) => url,
                None => query.to_owned(),
            }
        }
    }

    /// The cached resolution for a canonical URL, as long as it is still
    /// within its validity window.
    pub fn lookup(&self, url: &str, now_ms: u64) -> (r: Option<&YtDlp>)
        requires
            self.wf(),
        ensures
            match r {
                Some(y) => self.cache().contains_key(url@) && *y == self.cache()[url@].yt_dlp
                    && fresh_at(self.cache()[url@], now_ms),
                None => !self.cache().contains_key(url@) || !fresh_at(
                    self.cache()[url@],
                    now_ms,
                ),
            },
    {
        let mut i: usize = 0;
        while i < self.entries.len()
            invariant
                i <= self.entries@.len(),
                self.wf(),
                forall|j: int| 0 <= j < i ==> (#[trigger] self.entries@[j]).0@ != url@,
            decreases self.entries@.len() - i,
        {
            if str_eq(self.entries[i].0.as_str(), url) {
                proof {
                    lemma_map_of_match(self.entries@, url@, i as int);
                }
                let entry = &self.entries[i].1;
                if now_ms >= entry.loaded_at_ms && now_ms - entry.loaded_at_ms < ENTRY_TTL_MS {
                    return Some(&entry.yt_dlp);
                } else if now_ms < entry.loaded_at_ms {
                    // A clock that moved backwards still counts as fresh.
                    return Some(&entry.yt_dlp);
                } else {
                    return None;
                }
            }
            i += 1;
        }
        proof {
            lemma_map_of_unmatched(self.entries@, url@, 0);
            assert(self.entries@.take(0) =~= Seq::<(String, CacheEntry)>::empty());
        }
        None
    }

    /// Records a fresh resolution: the in-memory cache now maps the track's
    /// canonical URL to it, and — for a free-text query — the persistent
    /// index learns the query, unless the store reports an error, which is
    /// returned and otherwise ignored.
    pub fn commit(&mut self, query: &str, fetched: YtDlp, now_ms: u64) -> (r: Result<
        (),
        StorageError,
    >)
        requires
            old(self).wf(),
        ensures
            final(self).wf(),
            final(self).cache() == old(self).cache().insert(
                fetched.metadata.source_url@,
                CacheEntry { loaded_at_ms: now_ms, yt_dlp: fetched },
            ),
            final(self).last_refresh() == old(self).last_refresh(),
            seq_starts_with(query@, http_prefix()) ==> (r is Ok && final(self).queries() == old(self).queries()),
            (!seq_starts_with(query@, http_prefix()) && r is Ok) ==> final(self).queries() == old(self).queries().insert(query@, fetched.metadata.source_url@),
            r is Err ==> final(self).queries() == old(self).queries(),
    {
        let q = chars_of(query);
        let httpv = http_prefix_vec();
        let save_result: Result<(), StorageError> = if !starts_with(&q, &httpv) {
            self.storage.save(query, fetched.metadata.source_url.as_str())
        } else {
            Ok(())
        };
        let url = fetched.metadata.source_url.clone();
        self.put(url, CacheEntry { loaded_at_ms: now_ms, yt_dlp: fetched });
        save_result
    }

    /// Replaces or adds one cache pair, keeping one pair per URL.
    fn put(&mut self, url: String, entry: CacheEntry)
        requires
            old(self).wf(),
        ensures
            final(self).wf(),
            final(self).cache() == old(self).cache().insert(url@, entry),
            final(self).queries() == old(self).queries(),
            final(self).last_refresh() == old(self).last_refresh(),
    {
        let ghost s0 = self.entries@;
        let mut kept: Vec<(String, CacheEntry)> = Vec::new();
        let mut i: usize = 0;
        proof {
            assert(s0.take(0) =~= Seq::<(String, CacheEntry)>::empty());
        }
        while i < self.entries.len()
            invariant
                i <= s0.len(),
                s0 == self.entries@,
                keys_unique(s0),
                keys_unique(kept@),
                forall|j: int| 0 <= j < kept@.len() ==> (#[trigger] kept@[j]).0@ != url@,
                forall|j: int|
                    0 <= j < kept@.len() ==> (exists|l: int|
                        0 <= l < i && (#[trigger] kept@[j]).0@ == (#[trigger] s0[l]).0@),
                forall|u: Seq<char>|
                    u != url@ ==> (map_of(kept@).contains_key(u) == #[trigger] map_of(
                        s0.take(i as int),
                    ).contains_key(u)),
                forall|u: Seq<char>|
                    u != url@ && map_of(kept@).contains_key(u) ==> map_of(kept@)[u] == #[trigger] map_of(s0.take(i as int))[u],
            decreases s0.len() - i,
        {
            let ghost kept_before = kept@;
            let pair = &self.entries[i];
            proof {
                assert(s0.take(i + 1).drop_last() =~= s0.take(i as int));
                assert(s0.take(i + 1).last() == s0[i as int]);
                assert(map_of(s0.take(i + 1)) == map_of(s0.take(i as int)).insert(
                    s0[i as int].0@,
                    s0[i as int].1,
                ));
            }
            if !str_eq(pair.0.as_str(), url.as_str()) {
                let key = pair.0.clone();
                let value = pair.1.clone_entry();
                kept.push((key, value));
                proof {
                    assert(kept@.drop_last() =~= kept_before);
                    assert(map_of(kept@) == map_of(kept_before).insert(
                        s0[i as int].0@,
                        s0[i as int].1,
                    ));
                    assert forall|j1: int, j2: int|
                        0 <= j1 < j2 < kept@.len() implies (#[trigger] kept@[j1]).0@ != (
                    #[trigger] kept@[j2]).0@ by {
                        if j2 == kept@.len() - 1 {
                            let l = choose|l: int|
                                0 <= l < i && kept_before[j1].0@ == (#[trigger] s0[l]).0@;
                            assert(s0[l].0@ != s0[i as int].0@);
                        }
                    }
                }
            }
            i += 1;
        }
        proof {
            assert(s0.take(i as int) =~= s0);
        }
        let ghost kept_final = kept@;
        kept.push((url, entry));
        self.entries = kept;
        proof {
            assert(self.entries@.drop_last() =~= kept_final);
            assert(map_of(self.entries@) == map_of(kept_final).insert(
                self.entries@.last().0@,
                self.entries@.last().1,
            ));
            assert(map_of(self.entries@) =~= map_of(s0).insert(
                self.entries@.last().0@,
                self.entries@.last().1,
            ));
            assert forall|j1: int, j2: int|
                0 <= j1 < j2 < self.entries@.len() implies (#[trigger] self.entries@[j1]).0@ != (
            #[trigger] self.entries@[j2]).0@ by {}
        }
    }

    /// Whether a bulk refresh is due: repeated triggers within the refresh
    /// window are no-ops.
    pub fn should_refresh(&self, now_ms: u64) -> (r: bool)
        ensures
            r == (now_ms >= self.last_refresh() && now_ms - self.last_refresh()
                >= REFRESH_TTL_MS),
    {
        now_ms >= self.last_refresh_ms && now_ms - self.last_refresh_ms >= REFRESH_TTL_MS
    }

    /// The canonical URLs now cached, in storage order: what a bulk refresh
    /// re-resolves.
    pub fn known_urls(&self) -> (r: Vec<String>)
        ensures
            r@.len() == self.cache_size(),
            forall|i: int| 0 <= i < r@.len() ==> (#[trigger] r@[i])@ == self.entries_key(i),
            self.wf() ==> (forall|i: int, j: int|
                0 <= i < j < r@.len() ==> (#[trigger] r@[i])@ != (#[trigger] r@[j])@),
    {
        let mut r: Vec<String> = Vec::new();
        let mut i: usize = 0;
        while i < self.entries.len()
            invariant
                i <= self.entries@.len(),
                r@.len() == i,
                forall|j: int| 0 <= j < i ==> (#[trigger] r@[j])@ == self.entries@[j].0@,
            decreases self.entries@.len() - i,
        {
            r.push(self.entries[i].0.clone());
            i += 1;
        }
        r
    }

    /// The URL at one cache slot; `known_urls` lists them all.
    pub closed spec fn entries_key(&self, i: int) -> Seq<char> {
        self.entries@[i].0@
    }

    /// Installs the outcome of a bulk refresh: the in-memory map is replaced
    /// by exactly the successfully re-resolved URLs — an entry whose refresh
    /// failed is dropped, whatever it held before — and the refresh clock
    /// restarts. Stale data never survives a failed refresh.
    pub fn apply_refresh(&mut self, results: Vec<(String, Option<YtDlp>)>, now_ms: u64)
        requires
            forall|i: int, j: int|
                0 <= i < j < results@.len() ==> (#[trigger] results@[i]).0@ != (
                #[trigger] results@[j]).0@,
        ensures
            final(self).wf(),
            final(self).cache_size() == count_some(results@),
            final(self).last_refresh() == now_ms,
            final(self).queries() == old(self).queries(),
            forall|i: int|
                0 <= i < results@.len() && (#[trigger] results@[i]).1 is Some ==> (final(self).cache().contains_key(results@[i].0@) && final(self).cache()[results@[i].0@] == (
                CacheEntry { loaded_at_ms: now_ms, yt_dlp: results@[i].1.unwrap() })),
            forall|u: Seq<char>|
                #[trigger] final(self).cache().contains_key(u) ==> (exists|i: int|
                    0 <= i < results@.len() && (#[trigger] results@[i]).0@ == u
                        && results@[i].1 is Some),
    {
        let ghost rs = results@;
        let mut fresh_entries: Vec<(String, CacheEntry)> = Vec::new();
        let mut i: usize = 0;
        proof {
            assert(rs.take(0) =~= Seq::<(String, Option<YtDlp>)>::empty());
        }
        while i < results.len()
            invariant
                i <= rs.len(),
                rs == results@,
                keys_unique(fresh_entries@),
                fresh_entries@.len() == count_some(rs.take(i as int)),
                forall|i2: int, j2: int|
                    0 <= i2 < j2 < rs.len() ==> (#[trigger] rs[i2]).0@ != (#[trigger] rs[j2]).0@,
                forall|j: int|
                    0 <= j < fresh_entries@.len() ==> (exists|l: int|
                        0 <= l < i && (#[trigger] fresh_entries@[j]).0@ == (#[trigger] rs[l]).0@
                            && rs[l].1 is Some && fresh_entries@[j].1 == (CacheEntry {
                            loaded_at_ms: now_ms,
                            yt_dlp: rs[l].1.unwrap(),
                        })),
                forall|l: int|
                    0 <= l < i && (#[trigger] rs[l]).1 is Some ==> map_of(
                        fresh_entries@,
                    ).contains_key(rs[l].0@) && map_of(fresh_entries@)[rs[l].0@] == (CacheEntry {
                        loaded_at_ms: now_ms,
                        yt_dlp: rs[l].1.unwrap(),
                    }),
                forall|u: Seq<char>|
                    #[trigger] map_of(fresh_entries@).contains_key(u) ==> (exists|l: int|
                        0 <= l < i && (#[trigger] rs[l]).0@ == u && rs[l].1 is Some),
            decreases rs.len() - i,
        {
            proof {
                assert(rs.take(i + 1).drop_last() =~= rs.take(i as int));
                assert(rs.take(i + 1).last() == rs[i as int]);
            }
            let ghost before = fresh_entries@;
            match &results[i].1 {
                Some(y) => {
                    let url = results[i].0.clone();
                    let track = y.clone_track();
                    fresh_entries.push((url, CacheEntry { loaded_at_ms: now_ms, yt_dlp: track }));
                    proof {
                        assert(fresh_entries@.drop_last() =~= before);
                        assert(map_of(fresh_entries@) == map_of(before).insert(
                            rs[i as int].0@,
                            fresh_entries@.last().1,
                        ));
                        assert forall|j1: int, j2: int|
                            0 <= j1 < j2 < fresh_entries@.len() implies (
                        #[trigger] fresh_entries@[j1]).0@ != (#[trigger] fresh_entries@[j2]).0@ by {
                            if j2 == fresh_entries@.len() - 1 {
                                let l = choose|l: int|
                                    0 <= l < i && (#[trigger] before[j1]).0@ == (
                                    #[trigger] rs[l]).0@ && rs[l].1 is Some && before[j1].1 == (
                                    CacheEntry { loaded_at_ms: now_ms, yt_dlp: rs[l].1.unwrap() });
                                assert(rs[l].0@ != rs[i as int].0@);
                            }
                        }
                        assert forall|l: int|
                            0 <= l < i + 1 && (#[trigger] rs[l]).1 is Some implies map_of(
                            fresh_entries@,
                        ).contains_key(rs[l].0@) && map_of(fresh_entries@)[rs[l].0@] == (CacheEntry {
                            loaded_at_ms: now_ms,
                            yt_dlp: rs[l].1.unwrap(),
                        }) by {
                            if l < i {
                                assert(rs[l].0@ != rs[i as int].0@);
                            }
                        }
                    }
                },
                None => {},
            }
            i += 1;
        }
        proof {
            assert(rs.take(i as int) =~= rs);
        }
        self.entries = fresh_entries;
        self.last_refresh_ms = now_ms;
    }
}

impl CacheEntry {
    /// A field-for-field copy, unlike a derived clone visible to the
    /// verifier.
    fn clone_entry(&self) -> (r: CacheEntry)
        ensures
            r == *self,
    {
        CacheEntry { loaded_at_ms: self.loaded_at_ms, yt_dlp: self.yt_dlp.clone_track() }
    }
}

impl YtDlp {
    /// A field-for-field copy, unlike a derived clone visible to the
    /// verifier.
    fn clone_track(&self) -> (r: YtDlp)
        ensures
            r == *self,
    {
        YtDlp {
            request_url: clone_string(&self.request_url),
            content_length: self.content_length,
            metadata: Metadata {
                title: clone_string(&self.metadata.title),
                source_url: clone_string(&self.metadata.source_url),
                thumbnail_url: match &self.metadata.thumbnail_url {
                    Some(t) => Some(clone_string(t)),
                    None => None,
                },
                duration_sec: self.metadata.duration_sec,
            },
        }
    }
}

fn clone_string(s: &String) -> (r: String)
    ensures
        r == *s,
{
    s.clone()
}

/// When exactly one of `n` refreshed URLs fails, exactly `n − 1` survive:
/// with distinct URLs, one failure and every other refresh successful, the
/// successful count is the total less one.
pub proof fn lemma_refresh_one_failure(results: Seq<(String, Option<YtDlp>)>, j: int)
    requires
        0 <= j < results.len(),
        results[j].1 is None,
        forall|i: int| 0 <= i < results.len() && i != j ==> (#[trigger] results[i]).1 is Some,
    ensures
        count_some(results) == results.len() - 1,
    decreases results.len(),
{
    let last = results.len() - 1;
    if j == last {
        lemma_count_all_some(results.drop_last());
    } else {
        assert(results.drop_last()[j] == results[j]);
        lemma_refresh_one_failure(results.drop_last(), j);
    }
}

proof fn lemma_count_all_some(results: Seq<(String, Option<YtDlp>)>)
    requires
        forall|i: int| 0 <= i < results.len() ==> (#[trigger] results[i]).1 is Some,
    ensures
        count_some(results) == results.len(),
    decreases results.len(),
{
    if results.len() > 0 {
        lemma_count_all_some(results.drop_last());
    }
}

} // verus!
