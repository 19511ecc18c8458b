//! YouTube search results: playability filtering, durations and the search
//! cache.
use vstd::prelude::*;
use crate::text::{
    chars_of, dec, dec2, dec2_chars, dec_chars, lit, same_text, string_of, trim_str, trim_ws,
};

verus! {

/// A YouTube search result.
#[derive(Clone, Debug)]
pub struct SearchResult {
    pub id: String,
    pub title: String,
    pub channel: String,
    pub duration: String,
    pub thumbnail: String,
    pub url: String,
}

impl SearchResult {
    pub fn copy(&self) -> (r: SearchResult)
        ensures
            r == *self,
    {
        SearchResult {
            id: self.id.clone(),
            title: self.title.clone(),
            channel: self.channel.clone(),
            duration: self.duration.clone(),
            thumbnail: self.thumbnail.clone(),
            url: self.url.clone(),
        }
    }
}

/// The playability of one video, as the YouTube Data API reports it.
#[derive(Clone, Debug)]
pub struct VideoStatus {
    pub embeddable: Option<bool>,
}

/// One video of a `videos.list` answer.
#[derive(Clone, Debug)]
pub struct VideoStatusItem {
    pub id: String,
    pub status: VideoStatus,
}

/// A `videos.list` answer.
#[derive(Clone, Debug)]
pub struct VideosListResponse {
    pub items: Vec<VideoStatusItem>,
}

/// The message shown when a video cannot be played in the embedded player.
pub open spec fn unplayable_message() -> Seq<char> {
    "Esta version no se puede reproducir. Elige otra."@
}

/// The message shown when a video cannot be played in the embedded player.
pub fn unplayable_video_message() -> (r: String)
    ensures
        r@ == unplayable_message(),
{
    crate::text::owned("Esta version no se puede reproducir. Elige otra.")
}

/// The views of a list of strings.
pub open spec fn string_views(v: Seq<String>) -> Seq<Seq<char>> {
    v.map_values(|s: String| s@)
}

/// Whether `id` is one of `ids`.
pub fn has_id(ids: &Vec<String>, id: &str) -> (r: bool)
    ensures
        r == string_views(ids@).contains(id@),
{
    let mut i: usize = 0;
    while i < ids.len()
        invariant
            i <= ids.len(),
            forall|j: int| 0 <= j < i ==> string_views(ids@)[j] != id@,
        decreases ids.len() - i,
    {
        assert(string_views(ids@)[i as int] == ids@[i as int]@);
        if same_text(ids[i].as_str(), id) {
            return true;
        }
        i = i + 1;
    }
    false
}

/// The results whose video ids are in `embeddable_ids`, in order.
pub open spec fn embeddable_only(results: Seq<SearchResult>, ids: Seq<Seq<char>>) -> Seq<SearchResult> {
    results.filter(|r: SearchResult| ids.contains(r.id@))
}

/// Keeps the results whose videos can be embedded.
pub fn filter_results_by_embeddable(results: Vec<SearchResult>, embeddable_ids: &Vec<String>) -> (r:
    Vec<SearchResult>)
    ensures
        r@ == embeddable_only(results@, string_views(embeddable_ids@)),
{
    let ghost ids = string_views(embeddable_ids@);
    let mut out: Vec<SearchResult> = Vec::new();
    let mut i: usize = 0;
    while i < results.len()
        invariant
            i <= results.len(),
            ids == string_views(embeddable_ids@),
            out@ == embeddable_only(results@.take(i as int), ids),
        decreases results.len() - i,
    {
        let item = results[i].copy();
        proof {
            assert(results@.take(i + 1) =~= results@.take(i as int).push(item));
            results@.take(i as int).lemma_filter_push(item, |r: SearchResult| ids.contains(r.id@));
        }
        if has_id(embeddable_ids, item.id.as_str()) {
            out.push(item);
        }
        i = i + 1;
    }
    assert(results@.take(i as int) =~= results@);
    out
}

/// The ids of a `videos.list` answer whose status says embeddable, each
/// once, in the order of their first appearance.
pub open spec fn embeddable_ids_spec(items: Seq<VideoStatusItem>) -> Seq<Seq<char>>
    decreases items.len(),
{
    if items.len() == 0 {
        seq![]
    } else {
        let prev = embeddable_ids_spec(items.drop_last());
        let it = items.last();
        if it.status.embeddable == Some(true) && !prev.contains(it.id@) {
            prev.push(it.id@)
        } else {
            prev
        }
    }
}

/// The ids of the embeddable videos of a `videos.list` answer.
pub fn embeddable_ids_from_response(response: VideosListResponse) -> (r: Vec<String>)
    ensures
        string_views(r@) == embeddable_ids_spec(response.items@),
{
    let items = response.items;
    let mut out: Vec<String> = Vec::new();
    let mut i: usize = 0;
    while i < items.len()
        invariant
            i <= items.len(),
            string_views(out@) == embeddable_ids_spec(items@.take(i as int)),
        decreases items.len() - i,
    {
        proof {
            assert(items@.take(i + 1).drop_last() =~= items@.take(i as int));
            assert(items@.take(i + 1).last() == items@[i as int]);
        }
        let ok = match items[i].status.embeddable {
            Some(b) => b,
            None => false,
        };
        if ok && !has_id(&out, items[i].id.as_str()) {
            let ghost before = out@;
            out.push(items[i].id.clone());
            assert(string_views(out@) =~= string_views(before).push(items@[i as int].id@));
        }
        i = i + 1;
    }
    assert(items@.take(i as int) =~= items@);
    out
}

/// The video ids to check: trimmed, without the empty ones, each once, in
/// the order of their first appearance.
pub open spec fn unique_ids_spec(ids: Seq<Seq<char>>) -> Seq<Seq<char>>
    decreases ids.len(),
{
    if ids.len() == 0 {
        seq![]
    } else {
        let prev = unique_ids_spec(ids.drop_last());
        let t = trim_ws(ids.last());
        if t.len() > 0 && !prev.contains(t) {
            prev.push(t)
        } else {
            prev
        }
    }
}

/// The distinct non-blank video ids of a list, trimmed.
pub fn unique_video_ids(video_ids: &Vec<String>) -> (r: Vec<String>)
    ensures
        string_views(r@) == unique_ids_spec(string_views(video_ids@)),
{
    let ghost ids = string_views(video_ids@);
    let mut out: Vec<String> = Vec::new();
    let mut i: usize = 0;
    while i < video_ids.len()
        invariant
            i <= video_ids.len(),
            ids == string_views(video_ids@),
            string_views(out@) == unique_ids_spec(ids.take(i as int)),
        decreases video_ids.len() - i,
    {
        proof {
            assert(ids.take(i + 1).drop_last() =~= ids.take(i as int));
            assert(ids.take(i + 1).last() == video_ids@[i as int]@);
        }
        let t = trim_str(video_ids[i].as_str());
        let ts = string_of(&t);
        if t.len() > 0 && !has_id(&out, ts.as_str()) {
            let ghost before = out@;
            out.push(ts);
            assert(string_views(out@) =~= string_views(before).push(t@));
        }
        i = i + 1;
    }
    assert(ids.take(i as int) =~= ids);
    out
}

/// A duration in milliseconds as `M:SS`, or `H:MM:SS` from one hour on.
pub open spec fn duration_label(ms: nat) -> Seq<char> {
    let total = ms / 1000;
    let hours = total / 3600;
    let minutes = (total % 3600) / 60;
    let secs = total % 60;
    if hours > 0 {
        dec(hours) + seq![':'] + dec2(minutes) + seq![':'] + dec2(secs)
    } else {
        dec(minutes) + seq![':'] + dec2(secs)
    }
}

/// Formats a duration in milliseconds (`format_duration_ms`).
pub fn format_duration_ms(ms: u64) -> (r: String)
    ensures
        r@ == duration_label(ms as nat),
{
    let total = ms / 1000;
    let hours = total / 3600;
    let minutes = (total % 3600) / 60;
    let secs = total % 60;
    let mut out: Vec<char>;
    if hours > 0 {
        out = dec_chars(hours);
        out.push(':');
        let m = dec2_chars(minutes);
        crate::text::append_chars(&mut out, &m);
        out.push(':');
        let s = dec2_chars(secs);
        crate::text::append_chars(&mut out, &s);
    } else {
        out = dec_chars(minutes);
        out.push(':');
        let s = dec2_chars(secs);
        crate::text::append_chars(&mut out, &s);
    }
    assert(out@ =~= duration_label(ms as nat));
    string_of(&out)
}

// ------------------------------------------------------------------
// The search cache
// ------------------------------------------------------------------
/// How long a cached search stays fresh: 30 minutes, in nanoseconds.
pub const CACHE_TTL_NANOS: u64 = 1800000000000;

/// The most searches the cache holds.
pub const MAX_CACHE_ENTRIES: usize = 100;

/// A cached search: its results and when they were stored, in nanoseconds
/// on the host's monotonic clock.
#[derive(Debug)]
pub struct CacheEntry {
    pub results: Vec<SearchResult>,
    pub cached_at: u64,
}

/// A cached search, as a value.
pub ghost struct EntryModel {
    pub results: Seq<SearchResult>,
    pub cached_at: u64,
}

impl View for CacheEntry {
    type V = EntryModel;

    open spec fn view(&self) -> EntryModel {
        EntryModel { results: self.results@, cached_at: self.cached_at }
    }
}

/// The time since `cached_at`, zero when the clock reads earlier.
pub open spec fn age(cached_at: u64, now: u64) -> nat {
    if now >= cached_at {
        (now - cached_at) as nat
    } else {
        0
    }
}

/// An entry stored at `cached_at` is older than `ttl` at `now`.
pub open spec fn older_than(cached_at: u64, now: u64, ttl: u64) -> bool {
    age(cached_at, now) > ttl
}

fn copy_results(v: &Vec<SearchResult>) -> (r: Vec<SearchResult>)
    ensures
        r@ == v@,
{
    let mut out: Vec<SearchResult> = Vec::new();
    let mut i: usize = 0;
    while i < v.len()
        invariant
            i <= v.len(),
            out@ == v@.take(i as int),
        decreases v.len() - i,
    {
        out.push(v[i].copy());
        i = i + 1;
        assert(out@ =~= v@.take(i as int));
    }
    assert(v@.take(i as int) =~= v@);
    out
}

impl CacheEntry {
    /// Whether the entry is older than `ttl` nanoseconds at `now`
    /// (`age_exceeds`).
    pub fn age_exceeds(&self, now: u64, ttl: u64) -> (r: bool)
        ensures
            r == older_than(self.cached_at, now, ttl),
    {
        let elapsed = now.saturating_sub(self.cached_at);
        elapsed > ttl
    }

    /// Whether the entry is older than the cache's time to live
    /// (`is_expired`).
    pub fn is_expired(&self, now: u64) -> (r: bool)
        ensures
            r == older_than(self.cached_at, now, CACHE_TTL_NANOS),
    {
        self.age_exceeds(now, CACHE_TTL_NANOS)
    }
}

/// Cached search results by query key, each key once.
#[derive(Debug)]
pub struct SearchCache {
    entries: Vec<(String, CacheEntry)>,
}

/// The cache's entries, as values.
pub open spec fn entry_models(v: Seq<(String, CacheEntry)>) -> Seq<(Seq<char>, EntryModel)> {
    v.map_values(|e: (String, CacheEntry)| (e.0@, e.1@))
}

/// No key occurs twice.
pub open spec fn keys_unique(es: Seq<(Seq<char>, EntryModel)>) -> bool {
    forall|i: int, j: int| 0 <= i < es.len() && 0 <= j < es.len() && i != j ==> es[i].0 != es[j].0
}

/// The entry stored under `key`.
pub open spec fn lookup(es: Seq<(Seq<char>, EntryModel)>, key: Seq<char>) -> Option<EntryModel> {
    if exists|i: int| 0 <= i < es.len() && es[i].0 == key {
        Some(es[choose|i: int| 0 <= i < es.len() && es[i].0 == key].1)
    } else {
        None
    }
}

/// The entries of `es` that are not older than `ttl` at `now`, in order.
pub open spec fn fresh_only(es: Seq<(Seq<char>, EntryModel)>, now: u64, ttl: u64) -> Seq<(Seq<char>, EntryModel)> {
    es.filter(|e: (Seq<char>, EntryModel)| !older_than(e.1.cached_at, now, ttl))
}

/// `post` is `pre` without one of its oldest entries when it holds
/// `MAX_CACHE_ENTRIES` or more, and `pre` itself otherwise. Which of two
/// equally old entries goes is left open, as a hash map's order is.
pub open spec fn evicts_oldest(pre: Seq<(Seq<char>, EntryModel)>, post: Seq<(Seq<char>, EntryModel)>) -> bool {
    if pre.len() < MAX_CACHE_ENTRIES {
        post == pre
    } else {
        exists|i: int|
            0 <= i < pre.len() && (forall|j: int| 0 <= j < pre.len() ==> pre[i].1.cached_at <= #[trigger] pre[j].1.cached_at)
                && post == pre.remove(i)
    }
}

/// `post` is `pre` with `entry` stored under `key`, replacing the entry
/// that `key` had.
pub open spec fn stores(pre: Seq<(Seq<char>, EntryModel)>, post: Seq<(Seq<char>, EntryModel)>, key: Seq<char>, entry: EntryModel) -> bool {
    &&& lookup(post, key) == Some(entry)
    &&& forall|k: Seq<char>| k != key ==> lookup(post, k) == lookup(pre, k)
    &&& post.len() == if lookup(pre, key) is Some {
        pre.len()
    } else {
        pre.len() + 1
    }
}

impl View for SearchCache {
    type V = Seq<(Seq<char>, EntryModel)>;

    closed spec fn view(&self) -> Seq<(Seq<char>, EntryModel)> {
        entry_models(self.entries@)
    }
}

proof fn lemma_lookup_at(es: Seq<(Seq<char>, EntryModel)>, i: int)
    requires
        keys_unique(es),
        0 <= i < es.len(),
    ensures
        lookup(es, es[i].0) == Some(es[i].1),
{
    let k = choose|k: int| 0 <= k < es.len() && es[k].0 == es[i].0;
    assert(k == i);
}

proof fn lemma_filter_unique(es: Seq<(Seq<char>, EntryModel)>, now: u64, ttl: u64)
    requires
        keys_unique(es),
    ensures
        keys_unique(fresh_only(es, now, ttl)),
        forall|e: (Seq<char>, EntryModel)| fresh_only(es, now, ttl).contains(e) ==> es.contains(e),
    decreases es.len(),
{
    let f = |e: (Seq<char>, EntryModel)| !older_than(e.1.cached_at, now, ttl);
    if es.len() > 0 {
        let init = es.drop_last();
        assert(keys_unique(init));
        lemma_filter_unique(init, now, ttl);
        assert(es =~= init.push(es.last()));
        init.lemma_filter_push(es.last(), f);
        let fi = fresh_only(init, now, ttl);
        assert forall|e: (Seq<char>, EntryModel)| fresh_only(es, now, ttl).contains(e) implies es.contains(e) by {
            if fi.contains(e) {
                assert(init.contains(e));
                let k = choose|k: int| 0 <= k < init.len() && init[k] == e;
                assert(es[k] == e);
            } else {
                let j = choose|j: int| 0 <= j < fresh_only(es, now, ttl).len() && fresh_only(es, now, ttl)[j] == e;
                if f(es.last()) {
                    if j < fi.len() {
                        assert(fi.contains(fi[j]));
                    }
                    assert(es[es.len() - 1] == e);
                } else {
                    assert(fi.contains(fi[j]));
                }
            }
        }
        if f(es.last()) {
            assert forall|e: (Seq<char>, EntryModel)| fi.contains(e) implies e.0 != es.last().0 by {
                let j = choose|j: int| 0 <= j < fi.len() && fi[j] == e;
                assert(init.contains(e));
                let k = choose|k: int| 0 <= k < init.len() && init[k] == e;
                assert(es[k] == e);
            }
            assert forall|a: int, b: int| 0 <= a < fi.len() + 1 && 0 <= b < fi.len() + 1 && a != b implies fi.push(
                es.last(),
            )[a].0 != fi.push(es.last())[b].0 by {
                if a < fi.len() && b == fi.len() {
                    assert(fi.contains(fi[a]));
                } else if b < fi.len() && a == fi.len() {
                    assert(fi.contains(fi[b]));
                }
            }
        }
    } else {
        assert(fresh_only(es, now, ttl) =~= es);
    }
}

impl SearchCache {
    #[verifier::type_invariant]
    spec fn wf(self) -> bool {
        keys_unique(entry_models(self.entries@))
    }

    /// An empty cache.
    pub fn new() -> (r: SearchCache)
        ensures
            r@.len() == 0,
    {
        let r = SearchCache { entries: Vec::new() };
        assert(entry_models(r.entries@) =~= Seq::empty());
        r
    }

    /// The number of cached searches.
    pub fn len(&self) -> (r: usize)
        ensures
            r == self@.len(),
    {
        self.entries.len()
    }

    fn position_of(&self, key: &str) -> (r: Option<usize>)
        ensures
            match r {
                Some(i) => i < self@.len() && self@[i as int].0 == key@,
                None => forall|i: int| 0 <= i < self@.len() ==> self@[i].0 != key@,
            },
    {
        let mut i: usize = 0;
        while i < self.entries.len()
            invariant
                i <= self.entries.len(),
                forall|j: int| 0 <= j < i ==> self@[j].0 != key@,
            decreases self.entries.len() - i,
        {
            assert(self@[i as int].0 == self.entries@[i as int].0@);
            if same_text(self.entries[i].0.as_str(), key) {
                return Some(i);
            }
            i = i + 1;
        }
        None
    }

    /// Whether a search is cached under `key`.
    pub fn contains_key(&self, key: &str) -> (r: bool)
        ensures
            r == (lookup(self@, key@) is Some),
    {
        proof {
            use_type_invariant(self);
        }
        match self.position_of(key) {
            Some(i) => {
                proof {
                    lemma_lookup_at(self@, i as int);
                }
                true
            },
            None => false,
        }
    }

    /// Stores `entry` under `key`, replacing the entry that `key` had.
    pub fn insert(&mut self, key: String, entry: CacheEntry)
        ensures
            stores(old(self)@, final(self)@, key@, entry@),
    {
        proof {
            use_type_invariant(&*self);
        }
        let ghost pre = self@;
        let ghost e = entry@;
        match self.position_of(key.as_str()) {
            Some(i) => {
                proof {
                    lemma_lookup_at(pre, i as int);
                }
                let mut entries = Vec::new();
                std::mem::swap(&mut entries, &mut self.entries);
                entries.set(i, (key, entry));
                assert(entry_models(entries@) =~= pre.update(i as int, (pre[i as int].0, e)));
                self.entries = entries;
                proof {
                    let post = self@;
                    assert(post[i as int] == (pre[i as int].0, e));
                    lemma_lookup_at(post, i as int);
                    assert forall|k: Seq<char>| k != key@ implies lookup(post, k) == lookup(pre, k) by {
                        if exists|j: int| 0 <= j < pre.len() && pre[j].0 == k {
                            let j = choose|j: int| 0 <= j < pre.len() && pre[j].0 == k;
                            lemma_lookup_at(pre, j);
                            lemma_lookup_at(post, j);
                        } else {
                            assert(!(exists|j: int| 0 <= j < post.len() && post[j].0 == k));
                        }
                    }
                }
            },
            None => {
                let mut entries = Vec::new();
                std::mem::swap(&mut entries, &mut self.entries);
                entries.push((key, entry));
                assert(entry_models(entries@) =~= pre.push((key@, e)));
                proof {
                    let post = pre.push((key@, e));
                    assert(keys_unique(post));
                }
                self.entries = entries;
                proof {
                    let post = self@;
                    lemma_lookup_at(post, pre.len() as int);
                    assert(!(exists|j: int| 0 <= j < pre.len() && pre[j].0 == key@));
                    assert forall|k: Seq<char>| k != key@ implies lookup(post, k) == lookup(pre, k) by {
                        if exists|j: int| 0 <= j < pre.len() && pre[j].0 == k {
                            let j = choose|j: int| 0 <= j < pre.len() && pre[j].0 == k;
                            lemma_lookup_at(pre, j);
                            lemma_lookup_at(post, j);
                        } else {
                            assert(!(exists|j: int| 0 <= j < post.len() && post[j].0 == k));
                        }
                    }
                }
            },
        }
    }

    /// Drops every entry older than `ttl` nanoseconds at `now`
    /// (`purge_older_than`).
    pub fn purge_older_than(&mut self, now: u64, ttl: u64)
        ensures
            final(self)@ == fresh_only(old(self)@, now, ttl),
    {
        proof {
            use_type_invariant(&*self);
        }
        let ghost pre = self@;
        let mut entries = Vec::new();
        std::mem::swap(&mut entries, &mut self.entries);
        let mut kept: Vec<(String, CacheEntry)> = Vec::new();
        let mut i: usize = 0;
        let n = entries.len();
        assert(entry_models(entries@) == pre);
        while entries.len() > 0
            invariant
                i + entries.len() == n,
                n == pre.len(),
                entry_models(entries@) == pre.skip(i as int),
                entry_models(kept@) == fresh_only(pre.take(i as int), now, ttl),
            decreases entries.len(),
        {
            let e = entries.remove(0);
            proof {
                assert(pre.skip(i as int)[0] == (e.0@, e.1@));
                assert(pre.take(i + 1) =~= pre.take(i as int).push(pre[i as int]));
                pre.take(i as int).lemma_filter_push(
                    pre[i as int],
                    |x: (Seq<char>, EntryModel)| !older_than(x.1.cached_at, now, ttl),
                );
                assert(pre.skip(i + 1) =~= pre.skip(i as int).drop_first());
            }
            let ghost before = kept@;
            if !e.1.age_exceeds(now, ttl) {
                kept.push(e);
                assert(entry_models(kept@) =~= entry_models(before).push((e.0@, e.1@)));
            }
            i = i + 1;
            assert(entry_models(entries@) =~= pre.skip(i as int));
        }
        assert(pre.take(i as int) =~= pre);
        proof {
            lemma_filter_unique(pre, now, ttl);
        }
        self.entries = kept;
    }

    /// Drops one of the oldest entries when the cache is full
    /// (`evict_oldest_if_at_capacity`).
    pub fn evict_oldest_if_at_capacity(&mut self)
        ensures
            evicts_oldest(old(self)@, final(self)@),
    {
        proof {
            use_type_invariant(&*self);
        }
        if self.entries.len() < MAX_CACHE_ENTRIES {
            return;
        }
        let ghost pre = self@;
        let mut oldest: usize = 0;
        let mut i: usize = 1;
        while i < self.entries.len()
            invariant
                pre == self@,
                1 <= i <= self.entries.len(),
                oldest < i,
                forall|j: int| 0 <= j < i ==> pre[oldest as int].1.cached_at <= #[trigger] pre[j].1.cached_at,
            decreases self.entries.len() - i,
        {
            assert(pre[i as int].1.cached_at == self.entries@[i as int].1.cached_at);
            assert(pre[oldest as int].1.cached_at == self.entries@[oldest as int].1.cached_at);
            if self.entries[i].1.cached_at < self.entries[oldest].1.cached_at {
                oldest = i;
            }
            i = i + 1;
        }
        let mut entries = Vec::new();
        std::mem::swap(&mut entries, &mut self.entries);
        entries.remove(oldest);
        assert(entry_models(entries@) =~= pre.remove(oldest as int));
        proof {
            let post = pre.remove(oldest as int);
            assert forall|a: int, b: int| 0 <= a < post.len() && 0 <= b < post.len() && a != b implies post[a].0
                != post[b].0 by {
                let a2 = if a < oldest { a } else { a + 1 };
                let b2 = if b < oldest { b } else { b + 1 };
                assert(post[a] == pre[a2]);
                assert(post[b] == pre[b2]);
            }
        }
        self.entries = entries;
    }

    /// The results cached under `key`, unless they are expired at `now`
    /// (`get_cached`).
    pub fn get_cached(&self, key: &str, now: u64) -> (r: Option<Vec<SearchResult>>)
        ensures
            match lookup(self@, key@) {
                Some(e) => if older_than(e.cached_at, now, CACHE_TTL_NANOS) {
                    r is None
                } else {
                    r matches Some(v) && v@ == e.results
                },
                None => r is None,
            },
    {
        proof {
            use_type_invariant(self);
        }
        match self.position_of(key) {
            Some(i) => {
                proof {
                    lemma_lookup_at(self@, i as int);
                }
                let e = &self.entries[i].1;
                if e.is_expired(now) {
                    None
                } else {
                    Some(copy_results(&e.results))
                }
            },
            None => None,
        }
    }

    /// Stores the results of a search at `now` (`store_cached`): expired
    /// entries are dropped first, then the oldest one when the cache is
    /// full. A cache of at most `MAX_CACHE_ENTRIES` searches stays so, and
    /// the results can be read back under `key`.
    pub fn store_cached(&mut self, key: String, results: Vec<SearchResult>, now: u64)
        ensures
            exists|a: Seq<(Seq<char>, EntryModel)>, b: Seq<(Seq<char>, EntryModel)>|
                a == fresh_only(old(self)@, now, CACHE_TTL_NANOS) && evicts_oldest(a, b) && stores(
                    b,
                    final(self)@,
                    key@,
                    EntryModel { results: results@, cached_at: now },
                ),
            old(self)@.len() <= MAX_CACHE_ENTRIES ==> final(self)@.len() <= MAX_CACHE_ENTRIES,
            lookup(final(self)@, key@) == Some(EntryModel { results: results@, cached_at: now }),
    {
        let ghost pre = self@;
        self.purge_older_than(now, CACHE_TTL_NANOS);
        let ghost a = self@;
        proof {
            broadcast use vstd::seq_lib::group_filter_ensures;
        }
        self.evict_oldest_if_at_capacity();
        let ghost b = self@;
        self.insert(key, CacheEntry { results, cached_at: now });
    }
}

// ------------------------------------------------------------------
// Searching
// ------------------------------------------------------------------
/// What the search is run for: the query, with ` karaoke` added when only
/// karaoke versions are wanted.
pub open spec fn search_text(query: Seq<char>, karaoke_only: bool) -> Seq<char> {
    if karaoke_only {
        query + " karaoke"@
    } else {
        query
    }
}

/// The text that a search runs for (`search_youtube`'s query).
pub fn search_query(query: &str, karaoke_only: bool) -> (r: String)
    ensures
        r@ == search_text(query@, karaoke_only),
{
    let mut v = chars_of(query);
    if karaoke_only {
        let tail = lit(" karaoke");
        crate::text::append_chars(&mut v, &tail);
    }
    string_of(&v)
}

/// The lower-case form of a text under Unicode's case mapping.
pub uninterp spec fn lowercase_of(s: Seq<char>) -> Seq<char>;

/// `str::to_lowercase`: the text in lower case, by Unicode's mapping. The
/// result is claimed to depend on the text alone; the mapping is not
/// restated.
#[verifier::external_body]
pub(crate) fn lowercase(s: &str) -> (r: String)
    ensures
        r@ == lowercase_of(s@),
{
    s.to_lowercase()
}

/// The key a search is cached under: the mode, the lower-case search text
/// and the limit, separated by colons.
pub open spec fn search_key(search: Seq<char>, limit: u32, karaoke_only: bool) -> Seq<char> {
    (if karaoke_only {
        "karaoke"@
    } else {
        "all"@
    }) + ":"@ + lowercase_of(search) + ":"@ + dec(limit as nat)
}

/// The key a search is cached under.
pub fn cache_key(search: &str, limit: u32, karaoke_only: bool) -> (r: String)
    ensures
        r@ == search_key(search@, limit, karaoke_only),
{
    let mut v = if karaoke_only {
        lit("karaoke")
    } else {
        lit("all")
    };
    v.push(':');
    let low = lowercase(search);
    crate::text::append_chars(&mut v, &chars_of(low.as_str()));
    v.push(':');
    let d = dec_chars(limit as u64);
    crate::text::append_chars(&mut v, &d);
    proof {
        reveal_strlit(":");
    }
    assert(v@ =~= search_key(search@, limit, karaoke_only));
    string_of(&v)
}

/// How many results a search asks YouTube for: three times the limit, at
/// most 30.
pub fn raw_search_limit(limit: u32) -> (r: u32)
    requires
        limit <= 30,
    ensures
        r == (if 3 * limit < 30 {
            3 * limit
        } else {
            30
        }),
{
    let tripled = limit * 3;
    if tripled < 30 {
        tripled
    } else {
        30
    }
}

/// The page of a video.
pub open spec fn short_link(id: Seq<char>) -> Seq<char> {
    "https://youtu.be/"@ + id
}

/// The default thumbnail of a video.
pub open spec fn default_thumbnail(id: Seq<char>) -> Seq<char> {
    "https://i.ytimg.com/vi/"@ + id + "/hqdefault.jpg"@
}

/// The search result for a video found by a search: its length written as
/// `M:SS` or `H:MM:SS`, its last thumbnail or the default one, its short
/// link.
pub fn video_result(
    id: String,
    title: String,
    channel: String,
    duration_ms: u64,
    last_thumbnail: Option<String>,
) -> (r: SearchResult)
    ensures
        r.id == id,
        r.title == title,
        r.channel == channel,
        r.duration@ == duration_label(duration_ms as nat),
        r.thumbnail@ == (match last_thumbnail {
            Some(t) => t@,
            None => default_thumbnail(id@),
        }),
        r.url@ == short_link(id@),
{
    let idc = chars_of(id.as_str());
    let thumbnail = match last_thumbnail {
        Some(t) => t,
        None => {
            let mut v = lit("https://i.ytimg.com/vi/");
            crate::text::append_chars(&mut v, &idc);
            let tail = lit("/hqdefault.jpg");
            crate::text::append_chars(&mut v, &tail);
            string_of(&v)
        },
    };
    let mut u = lit("https://youtu.be/");
    crate::text::append_chars(&mut u, &idc);
    SearchResult {
        id,
        title,
        channel,
        duration: format_duration_ms(duration_ms),
        thumbnail,
        url: string_of(&u),
    }
}

/// The first `limit` results (all of them when there are fewer).
pub fn truncate_results(results: Vec<SearchResult>, limit: u32) -> (r: Vec<SearchResult>)
    ensures
        r@ == (if results@.len() <= limit {
            results@
        } else {
            results@.take(limit as int)
        }),
{
    let mut out: Vec<SearchResult> = Vec::new();
    let mut i: usize = 0;
    while i < results.len() && (i as u64) < (limit as u64)
        invariant
            i <= results.len(),
            i <= limit,
            out@ == results@.take(i as int),
        decreases results.len() - i,
    {
        out.push(results[i].copy());
        i = i + 1;
        assert(out@ =~= results@.take(i as int));
    }
    assert(results@.len() <= limit ==> results@.take(i as int) =~= results@);
    out
}

/// The first `n` results (all of them when there are fewer).
pub open spec fn first_results(rs: Seq<SearchResult>, n: u32) -> Seq<SearchResult> {
    if rs.len() <= n {
        rs
    } else {
        rs.take(n as int)
    }
}

/// The results cached under `key` that have not expired at `now`.
pub open spec fn fresh_hit(m: Seq<(Seq<char>, EntryModel)>, key: Seq<char>, now: u64) -> Option<
    Seq<SearchResult>,
> {
    match lookup(m, key) {
        Some(e) => if older_than(e.cached_at, now, CACHE_TTL_NANOS) {
            None
        } else {
            Some(e.results)
        },
        None => None,
    }
}

/// What a search does first (`search_youtube` up to its network work).
#[derive(Debug)]
pub enum SearchStep {
    /// The cache holds the search under `key`: check which of `results`
    /// play in the embedded player, then `finish_search` without a limit.
    Cached { key: String, results: Vec<SearchResult> },
    /// Search YouTube for `query`, asking for `raw_search_limit(limit)`
    /// videos, check which play, then `finish_search` with `limit`.
    Search { key: String, query: String, limit: u32 },
}

impl SearchCache {
    /// Starts a search for `query` (with ` karaoke` added when
    /// `karaoke_only`) at `now`: served from the cache when it holds the
    /// search and it has not expired, else to be run.
    pub fn begin_search(&self, query: &str, limit: u32, karaoke_only: bool, now: u64) -> (r: SearchStep)
        ensures
            ({
                let search = search_text(query@, karaoke_only);
                let key = search_key(search, limit, karaoke_only);
                match fresh_hit(self@, key, now) {
                    Some(rs) => r matches SearchStep::Cached { key: k, results } && k@ == key && results@
                        == rs,
                    None => r matches SearchStep::Search { key: k, query: q, limit: l } && k@ == key && q@
                        == search && l == limit,
                }
            }),
    {
        let search = search_query(query, karaoke_only);
        let key = cache_key(search.as_str(), limit, karaoke_only);
        match self.get_cached(key.as_str(), now) {
            Some(results) => SearchStep::Cached { key, results },
            None => SearchStep::Search { key, query: search, limit },
        }
    }

    /// Ends a search with the results whose videos play: the first `n` of
    /// them when `keep` is `Some(n)` (a fresh search), all of them
    /// otherwise (a cached one). They are stored under `key` at `now` and
    /// returned.
    pub fn finish_search(&mut self, key: String, keep: Option<u32>, playable: Vec<SearchResult>, now: u64) -> (r:
        Vec<SearchResult>)
        ensures
            r@ == match keep {
                Some(n) => first_results(playable@, n),
                None => playable@,
            },
            exists|a: Seq<(Seq<char>, EntryModel)>, b: Seq<(Seq<char>, EntryModel)>|
                a == fresh_only(old(self)@, now, CACHE_TTL_NANOS) && evicts_oldest(a, b) && stores(
                    b,
                    final(self)@,
                    key@,
                    EntryModel { results: r@, cached_at: now },
                ),
            old(self)@.len() <= MAX_CACHE_ENTRIES ==> final(self)@.len() <= MAX_CACHE_ENTRIES,
            lookup(final(self)@, key@) == Some(EntryModel { results: r@, cached_at: now }),
    {
        let results = match keep {
            Some(n) => truncate_results(playable, n),
            None => playable,
        };
        let stored = copy_results(&results);
        self.store_cached(key, stored, now);
        results
    }
}

/// The number of ids sent in one `videos.list` request.
pub const VIDEOS_LIST_BATCH_SIZE: usize = 50;

/// The ids grouped by fifty, each group joined with commas, in order.
pub open spec fn id_batches(ids: Seq<Seq<char>>) -> Seq<Seq<char>>
    decreases ids.len(),
{
    if ids.len() == 0 {
        Seq::empty()
    } else if ids.len() <= 50 {
        seq![crate::text::join(ids, ","@)]
    } else {
        seq![crate::text::join(ids.take(50), ","@)] + id_batches(ids.skip(50))
    }
}

/// Groups video ids for `videos.list` requests.
pub fn video_id_batches(ids: &Vec<String>) -> (r: Vec<String>)
    ensures
        string_views(r@) == id_batches(string_views(ids@)),
{
    let ghost all = string_views(ids@);
    let mut out: Vec<String> = Vec::new();
    let mut start: usize = 0;
    let sep = lit(",");
    proof {
        reveal_strlit(",");
    }
    assert(all.skip(0) =~= all);
    while start < ids.len()
        invariant
            start <= ids.len(),
            all == string_views(ids@),
            sep@ == ","@,
            string_views(out@) + id_batches(all.skip(start as int)) == id_batches(all),
        decreases ids.len() - start,
    {
        let end = if ids.len() - start <= 50 {
            ids.len()
        } else {
            start + 50
        };
        let mut parts: Vec<Vec<char>> = Vec::new();
        let mut k: usize = start;
        while k < end
            invariant
                start <= k <= end,
                end <= ids.len(),
                all == string_views(ids@),
                crate::text::views(parts@) == all.subrange(start as int, k as int),
            decreases end - k,
        {
            let ghost before = parts@;
            let c = chars_of(ids[k].as_str());
            parts.push(c);
            assert(all[k as int] == ids@[k as int]@);
            assert(crate::text::views(parts@) =~= crate::text::views(before).push(c@));
            assert(crate::text::views(parts@) =~= all.subrange(start as int, k + 1));
            k = k + 1;
        }
        let joined = string_of(&crate::text::join_chars(&parts, &sep));
        let ghost before = out@;
        out.push(joined);
        proof {
            let rest = all.skip(start as int);
            if ids.len() - start <= 50 {
                assert(rest =~= all.subrange(start as int, end as int));
                assert(all.skip(end as int) =~= Seq::<Seq<char>>::empty());
            } else {
                assert(rest.take(50) =~= all.subrange(start as int, end as int));
                assert(rest.skip(50) =~= all.skip(end as int));
            }
            assert(string_views(out@) =~= string_views(before).push(joined@));
            assert(string_views(out@) + id_batches(all.skip(end as int)) =~= string_views(before) + id_batches(rest));
        }
        start = end;
    }
    assert(string_views(out@) + Seq::<Seq<char>>::empty() =~= string_views(out@));
    out
}

/// The YouTube Data API key as configured: trimmed, and none when blank.
pub open spec fn api_key_of(raw: Option<Seq<char>>) -> Option<Seq<char>> {
    match raw {
        Some(k) => if trim_ws(k).len() > 0 {
            Some(trim_ws(k))
        } else {
            None
        },
        None => None,
    }
}

/// Normalises the configured API key (`youtube_api_key` after reading the
/// environment).
pub fn normalized_api_key(raw: Option<String>) -> (r: Option<String>)
    ensures
        crate::importer::opt_view(r) == api_key_of(crate::importer::opt_view(raw)),
{
    match raw {
        Some(k) => {
            let t = trim_str(k.as_str());
            if t.len() > 0 {
                Some(string_of(&t))
            } else {
                None
            }
        },
        None => None,
    }
}

/// The watch page of a video, as the oEmbed check names it.
pub fn watch_url(video_id: &str) -> (r: String)
    ensures
        r@ == "https://www.youtube.com/watch?v="@ + video_id@,
{
    let mut v = lit("https://www.youtube.com/watch?v=");
    crate::text::append_chars(&mut v, &chars_of(video_id));
    string_of(&v)
}

/// The verdict on one video once the playable ones are known
/// (`ensure_video_is_embeddable` after the check).
pub fn embeddable_verdict(embeddable_ids: &Vec<String>, video_id: &str) -> (r: Result<(), String>)
    ensures
        string_views(embeddable_ids@).contains(video_id@) ==> r is Ok,
        !string_views(embeddable_ids@).contains(video_id@) ==> (r matches Err(e) && e@
            == unplayable_message()),
{
    if has_id(embeddable_ids, video_id) {
        Ok(())
    } else {
        Err(unplayable_video_message())
    }
}

// ------------------------------------------------------------------
// Laws
// ------------------------------------------------------------------
/// The ids sent to the playability check are distinct, trimmed and not
/// blank.
pub proof fn law_unique_ids_are_distinct(ids: Seq<Seq<char>>)
    ensures
        unique_ids_spec(ids).no_duplicates(),
        forall|i: int| 0 <= i < unique_ids_spec(ids).len() ==> #[trigger] unique_ids_spec(ids)[i].len() > 0,
    decreases ids.len(),
{
    if ids.len() > 0 {
        law_unique_ids_are_distinct(ids.drop_last());
        let prev = unique_ids_spec(ids.drop_last());
        let t = trim_ws(ids.last());
        if t.len() > 0 && !prev.contains(t) {
            let now = prev.push(t);
            assert forall|a: int, b: int| 0 <= a < now.len() && 0 <= b < now.len() && a != b implies now[a]
                != now[b] by {
                if a == prev.len() {
                    assert(prev.contains(prev[b]));
                } else if b == prev.len() {
                    assert(prev.contains(prev[a]));
                }
            }
        }
    }
}

/// A search stored at `stored_at` is served back until the time to live
/// has passed: read-after-write for the cache, up to expiry.
pub proof fn law_fresh_search_is_served(
    es: Seq<(Seq<char>, EntryModel)>,
    key: Seq<char>,
    results: Seq<SearchResult>,
    stored_at: u64,
    now: u64,
)
    requires
        lookup(es, key) == Some(EntryModel { results, cached_at: stored_at }),
        age(stored_at, now) <= CACHE_TTL_NANOS,
    ensures
        lookup(es, key) matches Some(e) && !older_than(e.cached_at, now, CACHE_TTL_NANOS) && e.results
            == results,
{
}

} // verus!
