//! In-memory caches of hub results and the registry of cancellable downloads.
//!
//! The application keeps one `Cache` and one `CancellationTokens` behind a lock for
//! the whole process; the structures here hold the data and its rules.

use vstd::prelude::*;
use crate::hf_types::{HFModelDetails, HFModelSummary, ModelFilter};
use crate::text::push_str;

verus! {

/// Values stored under text keys, at most one per key.
pub struct KeyedStore<V> {
    entries: Vec<(String, V)>,
    contents: Ghost<Map<Seq<char>, V>>,
}

impl<V> KeyedStore<V> {
    /// Keys are distinct and the entries are exactly the stored contents.
    #[verifier::type_invariant]
    spec fn consistent(self) -> bool {
        &&& forall|i: int, j: int|
            0 <= i < j < self.entries@.len() ==> self.entries@[i].0@ != self.entries@[j].0@
        &&& forall|i: int|
            0 <= i < self.entries@.len() ==> self.contents@.contains_key(#[trigger] self.entries@[i].0@)
                && self.contents@[self.entries@[i].0@] == self.entries@[i].1
        &&& forall|k: Seq<char>|
            self.contents@.contains_key(k) ==> exists|i: int|
                0 <= i < self.entries@.len() && #[trigger] self.entries@[i].0@ == k
    }

    /// The stored values by key.
    pub closed spec fn view(&self) -> Map<Seq<char>, V> {
        self.contents@
    }

    /// An empty store.
    pub fn new() -> (r: KeyedStore<V>)
        ensures
            r.view() == Map::<Seq<char>, V>::empty(),
    {
        KeyedStore { entries: Vec::new(), contents: Ghost(Map::empty()) }
    }

    /// Position of `key`, if stored.
    fn position(&self, key: &str) -> (r: Option<usize>)
        ensures
            match r {
                Some(i) => i < self.entries@.len() && self.entries@[i as int].0@ == key@,
                None => !self.view().contains_key(key@),
            },
    {
        proof {
            use_type_invariant(self);
        }
        let mut i: usize = 0;
        while i < self.entries.len()
            invariant
                i <= self.entries@.len(),
                forall|k: int| 0 <= k < i ==> self.entries@[k].0@ != key@,
            decreases self.entries@.len() - i,
        {
            if crate::text::str_eq(self.entries[i].0.as_str(), key) {
                return Some(i);
            }
            i = i + 1;
        }
        None
    }

    /// The value stored under `key`.
    pub fn get(&self, key: &str) -> (r: Option<&V>)
        ensures
            match r {
                Some(v) => self.view().contains_key(key@) && *v == self.view()[key@],
                None => !self.view().contains_key(key@),
            },
    {
        proof {
            use_type_invariant(self);
        }
        match self.position(key) {
            Some(i) => Some(&self.entries[i].1),
            None => None,
        }
    }

    /// Stores `value` under `key`, replacing any earlier value.
    pub fn insert(&mut self, key: String, value: V)
        ensures
            final(self).view() == old(self).view().insert(key@, value),
    {
        proof {
            use_type_invariant(&*self);
        }
        let pos = self.position(key.as_str());
        let ghost new_contents = self.contents@.insert(key@, value);
        let mut taken: KeyedStore<V> = KeyedStore::new();
        std::mem::swap(&mut taken, self);
        proof {
            use_type_invariant(&taken);
        }
        let KeyedStore { entries, contents: _ } = taken;
        let mut entries = entries;
        let ghost old_entries = entries@;
        match pos {
            Some(i) => {
                entries.set(i, (key, value));
                proof {
                    assert forall|a: int, b: int| 0 <= a < b < entries@.len() implies entries@[a].0@
                        != entries@[b].0@ by {
                        if a != i as int {
                            assert(entries@[a] == old_entries[a]);
                        }
                        if b != i as int {
                            assert(entries@[b] == old_entries[b]);
                        }
                    }
                    assert forall|a: int| 0 <= a < entries@.len() implies new_contents.contains_key(
                        #[trigger] entries@[a].0@,
                    ) && new_contents[entries@[a].0@] == entries@[a].1 by {
                        if a != i as int {
                            assert(entries@[a] == old_entries[a]);
                            assert(old_entries[a].0@ != old_entries[i as int].0@);
                        }
                    }
                    assert forall|k: Seq<char>| new_contents.contains_key(k) implies exists|j: int|
                        0 <= j < entries@.len() && #[trigger] entries@[j].0@ == k by {
                        if k != entries@[i as int].0@ {
                            let j = choose|j: int| 0 <= j < old_entries.len() && #[trigger] old_entries[j].0@ == k;
                            assert(entries@[j] == old_entries[j]);
                        }
                    }
                }
            },
            None => {
                entries.push((key, value));
                proof {
                    assert forall|a: int| 0 <= a < old_entries.len() implies old_entries[a].0@ != key@ by {
                        assert(taken.contents@.contains_key(old_entries[a].0@));
                    }
                    assert forall|a: int, b: int| 0 <= a < b < entries@.len() implies entries@[a].0@
                        != entries@[b].0@ by {
                        assert(entries@[a] == old_entries[a]);
                        if b < old_entries.len() {
                            assert(entries@[b] == old_entries[b]);
                        }
                    }
                    assert forall|a: int| 0 <= a < entries@.len() implies new_contents.contains_key(
                        #[trigger] entries@[a].0@,
                    ) && new_contents[entries@[a].0@] == entries@[a].1 by {
                        if a < old_entries.len() {
                            assert(entries@[a] == old_entries[a]);
                        }
                    }
                    assert forall|k: Seq<char>| new_contents.contains_key(k) implies exists|j: int|
                        0 <= j < entries@.len() && #[trigger] entries@[j].0@ == k by {
                        if k != entries@[old_entries.len() as int].0@ {
                            let j = choose|j: int| 0 <= j < old_entries.len() && #[trigger] old_entries[j].0@ == k;
                            assert(entries@[j] == old_entries[j]);
                        }
                    }
                }
            },
        }
        let ghost g = KeyedStore { entries: entries, contents: Ghost(new_contents) };
        assert(g.entries@ == entries@);
        assert(g.contents@ == new_contents);
        assert(g.consistent());
        *self = KeyedStore { entries, contents: Ghost(new_contents) };
    }

    /// Removes and returns the value stored under `key`.
    pub fn remove(&mut self, key: &str) -> (r: Option<V>)
        ensures
            final(self).view() == old(self).view().remove(key@),
            match r {
                Some(v) => old(self).view().contains_key(key@) && v == old(self).view()[key@],
                None => !old(self).view().contains_key(key@),
            },
    {
        proof {
            use_type_invariant(&*self);
        }
        match self.position(key) {
            Some(i) => {
                let ghost new_contents = self.contents@.remove(key@);
                let mut taken: KeyedStore<V> = KeyedStore::new();
                std::mem::swap(&mut taken, self);
                proof {
                    use_type_invariant(&taken);
                }
                let KeyedStore { entries, contents: _ } = taken;
                let mut entries = entries;
                let ghost old_entries = entries@;
                let (_, v) = entries.remove(i);
                proof {
                    assert forall|a: int, b: int| 0 <= a < b < entries@.len() implies entries@[a].0@
                        != entries@[b].0@ by {
                        let a0 = if a < i { a } else { a + 1 };
                        let b0 = if b < i { b } else { b + 1 };
                        assert(entries@[a] == old_entries[a0]);
                        assert(entries@[b] == old_entries[b0]);
                    }
                    assert forall|a: int| 0 <= a < entries@.len() implies new_contents.contains_key(
                        #[trigger] entries@[a].0@,
                    ) && new_contents[entries@[a].0@] == entries@[a].1 by {
                        let a0 = if a < i { a } else { a + 1 };
                        assert(entries@[a] == old_entries[a0]);
                        assert(old_entries[a0].0@ != old_entries[i as int].0@);
                    }
                    assert forall|k: Seq<char>| new_contents.contains_key(k) implies exists|j: int|
                        0 <= j < entries@.len() && #[trigger] entries@[j].0@ == k by {
                        let j = choose|j: int| 0 <= j < old_entries.len() && #[trigger] old_entries[j].0@ == k;
                        assert(j != i);
                        let j2 = if j < i { j } else { j - 1 };
                        assert(entries@[j2] == old_entries[j]);
                    }
                }
                let ghost g = KeyedStore { entries: entries, contents: Ghost(new_contents) };
                assert(g.entries@ == entries@);
                assert(g.contents@ == new_contents);
                assert(g.consistent());
                *self = KeyedStore { entries, contents: Ghost(new_contents) };
                Some(v)
            },
            None => {
                assert(self.contents@.remove(key@) =~= self.contents@);
                None
            },
        }
    }

    /// Removes every value.
    pub fn clear(&mut self)
        ensures
            final(self).view() == Map::<Seq<char>, V>::empty(),
    {
        *self = KeyedStore::new();
    }
}

/// Cached hub results: repository details by id, listings by filter, and search
/// results by search key.
pub struct Cache {
    model_details: KeyedStore<HFModelDetails>,
    most_downloads: Option<Vec<HFModelSummary>>,
    most_liked: Option<Vec<HFModelSummary>>,
    recent: Option<Vec<HFModelSummary>>,
    search: KeyedStore<Vec<HFModelSummary>>,
}

impl Cache {
    /// Cached repository details by repository id.
    pub closed spec fn details(&self) -> Map<Seq<char>, HFModelDetails> {
        self.model_details.view()
    }

    /// Cached listing of a filter.
    pub closed spec fn listing(&self, filter: ModelFilter) -> Option<Vec<HFModelSummary>> {
        match filter {
            ModelFilter::MostDownloads => self.most_downloads,
            ModelFilter::MostLiked => self.most_liked,
            ModelFilter::Recent => self.recent,
        }
    }

    /// Cached search results by search key.
    pub closed spec fn searches(&self) -> Map<Seq<char>, Vec<HFModelSummary>> {
        self.search.view()
    }

    /// An empty cache.
    pub fn new() -> (r: Cache)
        ensures
            r.details() == Map::<Seq<char>, HFModelDetails>::empty(),
            r.searches() == Map::<Seq<char>, Vec<HFModelSummary>>::empty(),
            forall|f: ModelFilter| r.listing(f).is_none(),
    {
        Cache {
            model_details: KeyedStore::new(),
            most_downloads: None,
            most_liked: None,
            recent: None,
            search: KeyedStore::new(),
        }
    }

    /// The cached details of a repository.
    pub fn get_model_details(&self, model_id: &str) -> (r: Option<&HFModelDetails>)
        ensures
            match r {
                Some(d) => self.details().contains_key(model_id@) && *d == self.details()[model_id@],
                None => !self.details().contains_key(model_id@),
            },
    {
        self.model_details.get(model_id)
    }

    /// Caches the details of a repository.
    pub fn set_model_details(&mut self, model_id: &str, details: HFModelDetails)
        ensures
            final(self).details() == old(self).details().insert(model_id@, details),
            final(self).searches() == old(self).searches(),
            forall|f: ModelFilter| final(self).listing(f) == old(self).listing(f),
    {
        self.model_details.insert(String::from_str(model_id), details);
    }

    /// The cached listing of a filter.
    pub fn get_gguf_models(&self, filter: &ModelFilter) -> (r: Option<&Vec<HFModelSummary>>)
        ensures
            match r {
                Some(v) => self.listing(*filter) == Some(*v),
                None => self.listing(*filter).is_none(),
            },
    {
        match filter {
            ModelFilter::MostDownloads => self.most_downloads.as_ref(),
            ModelFilter::MostLiked => self.most_liked.as_ref(),
            ModelFilter::Recent => self.recent.as_ref(),
        }
    }

    /// Caches the listing of a filter.
    pub fn set_gguf_models(&mut self, filter: ModelFilter, models: Vec<HFModelSummary>)
        ensures
            final(self).listing(filter) == Some(models),
            forall|f: ModelFilter| f != filter ==> final(self).listing(f) == old(self).listing(f),
            final(self).details() == old(self).details(),
            final(self).searches() == old(self).searches(),
    {
        match filter {
            ModelFilter::MostDownloads => {
                self.most_downloads = Some(models);
            },
            ModelFilter::MostLiked => {
                self.most_liked = Some(models);
            },
            ModelFilter::Recent => {
                self.recent = Some(models);
            },
        }
    }

    /// The cached results of a search key.
    pub fn get_search_results(&self, key: &str) -> (r: Option<&Vec<HFModelSummary>>)
        ensures
            match r {
                Some(v) => self.searches().contains_key(key@) && *v == self.searches()[key@],
                None => !self.searches().contains_key(key@),
            },
    {
        self.search.get(key)
    }

    /// Caches the results of a search key.
    pub fn set_search_results(&mut self, key: String, models: Vec<HFModelSummary>)
        ensures
            final(self).searches() == old(self).searches().insert(key@, models),
            final(self).details() == old(self).details(),
            forall|f: ModelFilter| final(self).listing(f) == old(self).listing(f),
    {
        self.search.insert(key, models);
    }

    /// Forgets the listing of one filter, or of every filter, and every search result;
    /// repository details stay.
    pub fn clear_gguf_cache(&mut self, filter: Option<ModelFilter>)
        ensures
            forall|f: ModelFilter|
                (filter.is_none() || filter == Some(f)) ==> final(self).listing(f).is_none(),
            forall|f: ModelFilter|
                !(filter.is_none() || filter == Some(f)) ==> final(self).listing(f) == old(self).listing(f),
            final(self).searches() == Map::<Seq<char>, Vec<HFModelSummary>>::empty(),
            final(self).details() == old(self).details(),
    {
        match filter {
            Some(ModelFilter::MostDownloads) => {
                self.most_downloads = None;
            },
            Some(ModelFilter::MostLiked) => {
                self.most_liked = None;
            },
            Some(ModelFilter::Recent) => {
                self.recent = None;
            },
            None => {
                self.most_downloads = None;
                self.most_liked = None;
                self.recent = None;
            },
        }
        self.search.clear();
    }
}

/// Forgets cached listings (of one filter or all) and all search results.
pub fn clear_model_cache(cache: &mut Cache, filter: Option<ModelFilter>)
    ensures
        forall|f: ModelFilter|
            (filter.is_none() || filter == Some(f)) ==> final(cache).listing(f).is_none(),
        forall|f: ModelFilter|
            !(filter.is_none() || filter == Some(f)) ==> final(cache).listing(f) == old(cache).listing(f),
        final(cache).searches() == Map::<Seq<char>, Vec<HFModelSummary>>::empty(),
        final(cache).details() == old(cache).details(),
{
    cache.clear_gguf_cache(filter);
}

/// Law: details cached for a repository are read back as they were stored, and caching
/// them leaves the details of every other repository as they were.
pub proof fn law_cache_read_after_write(before: Cache, after: Cache, k: Seq<char>, d: HFModelDetails)
    requires
        after.details() == before.details().insert(k, d),
    ensures
        after.details().contains_key(k),
        after.details()[k] == d,
        forall|other: Seq<char>|
            other != k ==> (after.details().contains_key(other) == before.details().contains_key(other))
                && (before.details().contains_key(other) ==> after.details()[other] == before.details()[other]),
{
}

/// The identifier of a download: the repository id, `:` and the file name.
pub open spec fn download_id(model_id: Seq<char>, filename: Seq<char>) -> Seq<char> {
    model_id + ":"@ + filename
}

/// The identifier of a download of `filename` from repository `model_id`.
pub fn generate_download_id(model_id: &str, filename: &str) -> (r: String)
    ensures
        r@ == download_id(model_id@, filename@),
{
    let mut r = String::from_str(model_id);
    push_str(&mut r, ":");
    push_str(&mut r, filename);
    r
}

/// Downloads in progress, each with whether it was asked to stop.
pub struct CancellationTokens {
    tokens: KeyedStore<bool>,
}

impl CancellationTokens {
    /// Whether each registered download was asked to stop.
    pub closed spec fn view(&self) -> Map<Seq<char>, bool> {
        self.tokens.view()
    }

    /// No download registered.
    pub fn new() -> (r: CancellationTokens)
        ensures
            r.view() == Map::<Seq<char>, bool>::empty(),
    {
        CancellationTokens { tokens: KeyedStore::new() }
    }
}

/// Whether the download `download_id` was asked to stop, or `None` when it is not registered.
pub fn get_cancellation_token(registry: &CancellationTokens, download_id: &str) -> (r: Option<bool>)
    ensures
        match r {
            Some(b) => registry.view().contains_key(download_id@) && b == registry.view()[download_id@],
            None => !registry.view().contains_key(download_id@),
        },
{
    match registry.tokens.get(download_id) {
        Some(b) => Some(*b),
        None => None,
    }
}

/// Registers the download `download_id` with its stop request.
pub fn insert_cancellation_token(registry: &mut CancellationTokens, download_id: String, token: bool)
    ensures
        final(registry).view() == old(registry).view().insert(download_id@, token),
{
    registry.tokens.insert(download_id, token);
}

/// Unregisters the download `download_id`, returning its stop request.
pub fn remove_cancellation_token(registry: &mut CancellationTokens, download_id: &str) -> (r: Option<bool>)
    ensures
        final(registry).view() == old(registry).view().remove(download_id@),
        match r {
            Some(b) => old(registry).view().contains_key(download_id@) && b == old(registry).view()[download_id@],
            None => !old(registry).view().contains_key(download_id@),
        },
{
    registry.tokens.remove(download_id)
}

/// Asks an ongoing download to stop. Returns whether a download of `filename` from
/// `model_id` was registered; only then is its stop request set.
pub fn cancel_download(registry: &mut CancellationTokens, model_id: &str, filename: &str) -> (r: bool)
    ensures
        r == old(registry).view().contains_key(download_id(model_id@, filename@)),
        r ==> final(registry).view() == old(registry).view().insert(download_id(model_id@, filename@), true),
        !r ==> final(registry).view() == old(registry).view(),
{
    let id = generate_download_id(model_id, filename);
    match get_cancellation_token(registry, id.as_str()) {
        Some(_) => {
            insert_cancellation_token(registry, id, true);
            true
        },
        None => false,
    }
}

/// Law: a registered download that is cancelled reads as asked to stop, a download
/// that was never registered cannot be cancelled, and an unregistered download reads
/// as unknown.
pub proof fn law_cancellation_lifecycle(
    registered: CancellationTokens,
    cancelled: CancellationTokens,
    removed: CancellationTokens,
    model_id: Seq<char>,
    filename: Seq<char>,
)
    requires
        registered.view().contains_key(download_id(model_id, filename)),
        cancelled.view() == registered.view().insert(download_id(model_id, filename), true),
        removed.view() == cancelled.view().remove(download_id(model_id, filename)),
    ensures
        cancelled.view()[download_id(model_id, filename)],
        !removed.view().contains_key(download_id(model_id, filename)),
        forall|other: Seq<char>|
            other != download_id(model_id, filename) ==> removed.view().contains_key(other)
                == registered.view().contains_key(other),
{
}

} // verus!
