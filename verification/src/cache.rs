//! The template content cache: a key→body store with a hard one-hour TTL,
//! modelled as a map from locator to `(timestamp, body)`, plus the per-run
//! refresh tracker that forces at most one revalidation per distinct key.

use vstd::prelude::*;
use crate::strutil::str_eq;

verus! {

/// Number of seconds a cache entry stays fresh.
pub const CACHE_TTL_SECS: u64 = 3600;

/// One cached template body.
#[derive(Debug)]
pub struct CacheEntry {
    /// The locator the body was fetched from.
    pub key: String,
    /// Seconds-since-epoch timestamp of the entry's last write.
    pub updated: u64,
    /// The cached, already-trimmed body.
    pub content: String,
}

impl View for CacheEntry {
    type V = (Seq<char>, u64, Seq<char>);

    open spec fn view(&self) -> (Seq<char>, u64, Seq<char>) {
        (self.key@, self.updated, self.content@)
    }
}

impl Clone for CacheEntry {
    /// Clones are equal to the original.
    fn clone(&self) -> (r: Self)
        ensures
            r == *self,
    {
        CacheEntry { key: self.key.clone(), updated: self.updated, content: self.content.clone() }
    }
}

/// An entry is fresh at `now` when its age does not exceed the TTL; a
/// timestamp in the future counts as age zero.
pub open spec fn fresh_at(now: u64, updated: u64) -> bool {
    now as int <= updated as int + CACHE_TTL_SECS
}

/// The entry views of a cache, in storage order.
pub open spec fn entry_views(entries: Seq<CacheEntry>) -> Seq<(Seq<char>, u64, Seq<char>)> {
    entries.map_values(|e: CacheEntry| e@)
}

/// No two entries share a key.
pub open spec fn keys_unique(evs: Seq<(Seq<char>, u64, Seq<char>)>) -> bool {
    forall|i: int, j: int| 0 <= i < j < evs.len() ==> (#[trigger] evs[i]).0 != (#[trigger] evs[j]).0
}

/// The map a list of entries denotes; later entries would win, though a
/// well-formed cache has unique keys.
pub open spec fn cache_map(evs: Seq<(Seq<char>, u64, Seq<char>)>) -> Map<Seq<char>, (u64, Seq<char>)>
    decreases evs.len(),
{
    if evs.len() == 0 {
        Map::empty()
    } else {
        cache_map(evs.drop_last()).insert(evs.last().0, (evs.last().1, evs.last().2))
    }
}

/// What [`cache_map`] holds of each stored entry and of absent keys.
pub proof fn lemma_cache_map_props(evs: Seq<(Seq<char>, u64, Seq<char>)>)
    requires
        keys_unique(evs),
    ensures
        forall|k: Seq<char>|
            #[trigger] cache_map(evs).contains_key(k) <==> exists|i: int|
                0 <= i < evs.len() && (#[trigger] evs[i]).0 == k,
        forall|i: int|
            0 <= i < evs.len() ==> cache_map(evs).contains_key((#[trigger] evs[i]).0)
                && cache_map(evs)[evs[i].0] == (evs[i].1, evs[i].2),
    decreases evs.len(),
{
    if evs.len() > 0 {
        let pre = evs.drop_last();
        assert(forall|i: int| 0 <= i < pre.len() ==> pre[i] == evs[i]);
        assert(keys_unique(pre));
        lemma_cache_map_props(pre);
        assert(cache_map(evs) == cache_map(pre).insert(evs.last().0, (
            evs.last().1,
            evs.last().2,
        )));
        assert forall|k: Seq<char>|
            #[trigger] cache_map(evs).contains_key(k) implies exists|i: int|
            0 <= i < evs.len() && (#[trigger] evs[i]).0 == k by {
            if k == evs.last().0 {
                assert(evs[evs.len() - 1].0 == k);
            } else {
                let i = choose|i: int| 0 <= i < pre.len() && (#[trigger] pre[i]).0 == k;
                assert(evs[i].0 == k);
            }
        }
        assert forall|k: Seq<char>|
            (exists|i: int| 0 <= i < evs.len() && (#[trigger] evs[i]).0 == k) implies cache_map(
            evs,
        ).contains_key(k) by {
            let i = choose|i: int| 0 <= i < evs.len() && (#[trigger] evs[i]).0 == k;
            if i < evs.len() - 1 {
                assert(pre[i].0 == k);
            }
        }
        assert forall|i: int| 0 <= i < evs.len() implies cache_map(evs).contains_key(
            (#[trigger] evs[i]).0,
        ) && cache_map(evs)[evs[i].0] == (evs[i].1, evs[i].2) by {
            if i < evs.len() - 1 {
                assert(pre[i] == evs[i]);
                // uniqueness: the last entry's key differs from evs[i].0
                assert(evs[i].0 != evs.last().0);
            }
        }
    }
}

/// The cache interface for ignore template bodies.
#[derive(Debug)]
pub struct TemplateCache {
    /// The stored entries; well-formed caches keep keys unique.
    pub entries: Vec<CacheEntry>,
}

impl View for TemplateCache {
    type V = Map<Seq<char>, (u64, Seq<char>)>;

    open spec fn view(&self) -> Map<Seq<char>, (u64, Seq<char>)> {
        cache_map(entry_views(self.entries@))
    }
}

impl TemplateCache {
    /// Keys are pairwise distinct.
    pub open spec fn wf(&self) -> bool {
        keys_unique(entry_views(self.entries@))
    }

    /// An empty cache.
    pub fn new() -> (r: Self)
        ensures
            r.wf(),
            r@ == Map::<Seq<char>, (u64, Seq<char>)>::empty(),
    {
        proof {
            assert(entry_views(Seq::<CacheEntry>::empty()) =~= Seq::<(
                Seq<char>,
                u64,
                Seq<char>,
            )>::empty());
        }
        TemplateCache { entries: Vec::new() }
    }

    /// A cache built from already-loaded entries, dropping any entry whose
    /// key repeats an earlier one: the result holds exactly the given keys,
    /// each with the timestamp and body of its first-listed entry.
    pub fn from_entries(entries: Vec<CacheEntry>) -> (r: Self)
        ensures
            r.wf(),
            forall|k: Seq<char>|
                #[trigger] r@.contains_key(k) <==> exists|j: int|
                    0 <= j < entries@.len() && (#[trigger] entries@[j])@.0 == k,
            forall|j: int|
                0 <= j < entries@.len() && (forall|m: int|
                    0 <= m < j ==> (#[trigger] entries@[m])@.0 != entries@[j]@.0) ==> r@[(
                #[trigger] entries@[j])@.0] == (entries@[j]@.1, entries@[j]@.2),
    {
        let mut cache = TemplateCache::new();
        let mut i: usize = 0;
        while i < entries.len()
            invariant
                i <= entries@.len(),
                cache.wf(),
                forall|k: Seq<char>|
                    #[trigger] cache@.contains_key(k) <==> exists|j: int|
                        0 <= j < i && (#[trigger] entries@[j])@.0 == k,
                forall|j: int|
                    0 <= j < i && (forall|m: int|
                        0 <= m < j ==> (#[trigger] entries@[m])@.0 != entries@[j]@.0)
                        ==> cache@[(#[trigger] entries@[j])@.0] == (
                    entries@[j]@.1,
                    entries@[j]@.2,
                ),
            decreases entries.len() - i,
        {
            let e = &entries[i];
            let ghost evs0 = entry_views(cache.entries@);
            let ghost map0 = cache@;
            proof {
                lemma_cache_map_props(evs0);
            }
            match cache.find_index(e.key.as_str()) {
                None => {
                    proof {
                        assert(!map0.contains_key(e@.0));
                    }
                    cache.entries.push(e.clone());
                    proof {
                        let evs1 = entry_views(cache.entries@);
                        assert(evs1 =~= evs0.push(e@));
                        assert forall|a: int, b: int| 0 <= a < b < evs1.len() implies (
                        #[trigger] evs1[a]).0 != (#[trigger] evs1[b]).0 by {
                            if b == evs0.len() {
                                assert(evs0[a].0 != e@.0);
                            } else {
                                assert(evs0[a].0 != evs0[b].0);
                            }
                        }
                        assert(evs1.drop_last() =~= evs0);
                        assert(cache@ == map0.insert(e@.0, (e@.1, e@.2)));
                        assert forall|k: Seq<char>|
                            #[trigger] cache@.contains_key(k) <==> exists|j: int|
                                0 <= j < i + 1 && (#[trigger] entries@[j])@.0 == k by {
                            if k == e@.0 {
                                assert(entries@[i as int]@.0 == k);
                                assert(cache@.contains_key(k));
                            } else {
                                if cache@.contains_key(k) {
                                    assert(map0.contains_key(k));
                                }
                                if exists|j: int|
                                    0 <= j < i + 1 && (#[trigger] entries@[j])@.0 == k {
                                    let j = choose|j: int|
                                        0 <= j < i + 1 && (#[trigger] entries@[j])@.0 == k;
                                    assert(j < i);
                                    assert(map0.contains_key(k));
                                }
                            }
                        }
                        assert forall|j: int|
                            0 <= j < i + 1 && (forall|m: int|
                                0 <= m < j ==> (#[trigger] entries@[m])@.0 != entries@[j]@.0)
                                implies cache@[(#[trigger] entries@[j])@.0] == (
                            entries@[j]@.1,
                            entries@[j]@.2,
                        ) by {
                            if j < i {
                                assert(entries@[j]@.0 != e@.0) by {
                                    if entries@[j]@.0 == e@.0 {
                                        assert(map0.contains_key(e@.0));
                                    }
                                }
                            }
                        }
                    }
                },
                Some(_found) => {
                    proof {
                        assert(map0.contains_key(e@.0)) by {
                            assert(evs0[_found as int].0 == e@.0);
                        }
                        assert forall|k: Seq<char>|
                            #[trigger] cache@.contains_key(k) <==> exists|j: int|
                                0 <= j < i + 1 && (#[trigger] entries@[j])@.0 == k by {
                            if cache@.contains_key(k) {
                                let j = choose|j: int|
                                    0 <= j < i && (#[trigger] entries@[j])@.0 == k;
                                assert(0 <= j < i + 1 && entries@[j]@.0 == k);
                            }
                            if exists|j: int|
                                0 <= j < i + 1 && (#[trigger] entries@[j])@.0 == k {
                                let j = choose|j: int|
                                    0 <= j < i + 1 && (#[trigger] entries@[j])@.0 == k;
                                if j == i {
                                    assert(cache@.contains_key(e@.0));
                                }
                            }
                        }
                        assert forall|j: int|
                            0 <= j < i + 1 && (forall|m: int|
                                0 <= m < j ==> (#[trigger] entries@[m])@.0 != entries@[j]@.0)
                                implies cache@[(#[trigger] entries@[j])@.0] == (
                            entries@[j]@.1,
                            entries@[j]@.2,
                        ) by {
                            if j == i {
                                // the key is already stored, so an earlier entry holds it
                                let j2 = choose|j2: int|
                                    0 <= j2 < i && (#[trigger] entries@[j2])@.0 == e@.0;
                                assert(entries@[j2]@.0 == entries@[i as int]@.0);
                            }
                        }
                    }
                },
            }
            i += 1;
        }
        cache
    }

    /// Index of the entry holding `key`, if any.
    fn find_index(&self, key: &str) -> (r: Option<usize>)
        ensures
            match r {
                Some(i) => i < self.entries@.len() && entry_views(self.entries@)[i as int].0
                    == key@,
                None => forall|i: int|
                    0 <= i < self.entries@.len() ==> (#[trigger] entry_views(self.entries@)[
                    i]).0 != key@,
            },
    {
        let mut i: usize = 0;
        while i < self.entries.len()
            invariant
                i <= self.entries@.len(),
                forall|j: int|
                    0 <= j < i ==> (#[trigger] entry_views(self.entries@)[j]).0 != key@,
            decreases self.entries@.len() - i,
        {
            if str_eq(self.entries[i].key.as_str(), key) {
                proof {
                    assert(entry_views(self.entries@)[i as int].0 == key@);
                }
                return Some(i);
            }
            i += 1;
        }
        None
    }

    /// Looks the key up: the stored body comes back exactly when an entry
    /// exists and its age at `now` is within the TTL; an entry aged 3600
    /// seconds is still returned, one older is not.
    pub fn get(&self, key: &str, now: u64) -> (r: Option<String>)
        requires
            self.wf(),
        ensures
            match r {
                Some(c) => self@.contains_key(key@) && fresh_at(now, self@[key@].0) && c@
                    == self@[key@].1,
                None => !self@.contains_key(key@) || !fresh_at(now, self@[key@].0),
            },
    {
        proof {
            lemma_cache_map_props(entry_views(self.entries@));
        }
        match self.find_index(key) {
            Some(i) => {
                let e = &self.entries[i];
                proof {
                    assert(entry_views(self.entries@)[i as int] == e@);
                }
                let is_fresh = if now >= e.updated {
                    now - e.updated <= CACHE_TTL_SECS
                } else {
                    true
                };
                if is_fresh {
                    Some(e.content.clone())
                } else {
                    None
                }
            },
            None => None,
        }
    }

    /// Inserts or overwrites the entry for `key` with the given body and the
    /// current timestamp.
    pub fn set(&mut self, key: &str, content: &str, now: u64)
        requires
            old(self).wf(),
        ensures
            final(self).wf(),
            final(self)@ == old(self)@.insert(key@, (now, content@)),
    {
        proof {
            lemma_cache_map_props(entry_views(self.entries@));
        }
        let new_entry = CacheEntry { key: key.to_owned(), updated: now, content: content.to_owned() };
        let ghost evs0 = entry_views(self.entries@);
        match self.find_index(key) {
            Some(i) => {
                self.entries.set(i, new_entry);
                proof {
                    let evs1 = entry_views(self.entries@);
                    assert(evs1 =~= evs0.update(i as int, (key@, now, content@)));
                    assert(keys_unique(evs1)) by {
                        assert forall|a: int, b: int| 0 <= a < b < evs1.len() implies (
                        #[trigger] evs1[a]).0 != (#[trigger] evs1[b]).0 by {
                            assert(evs0[a].0 != evs0[b].0);
                            assert(evs1[a].0 == evs0[a].0 && evs1[b].0 == evs0[b].0);
                        }
                    }
                    lemma_cache_map_props(evs1);
                    assert(cache_map(evs1) =~= cache_map(evs0).insert(key@, (now, content@))) by {
                        assert forall|k: Seq<char>| #[trigger]
                            cache_map(evs1).contains_key(k) implies cache_map(evs0).insert(
                            key@,
                            (now, content@),
                        ).contains_key(k) by {
                            let j = choose|j: int| 0 <= j < evs1.len() && (#[trigger] evs1[j]).0
                                == k;
                            if j != i {
                                assert(evs0[j].0 == k);
                            }
                        }
                        assert forall|k: Seq<char>| #[trigger]
                            cache_map(evs0).insert(key@, (now, content@)).contains_key(
                            k,
                        ) implies cache_map(evs1).contains_key(k) by {
                            if k == key@ {
                                assert(evs1[i as int].0 == k);
                            } else {
                                let j = choose|j: int|
                                    0 <= j < evs0.len() && (#[trigger] evs0[j]).0 == k;
                                assert(evs1[j].0 == k);
                            }
                        }
                        assert forall|k: Seq<char>| #[trigger]
                            cache_map(evs1).contains_key(k) implies cache_map(evs1)[k]
                            == cache_map(evs0).insert(key@, (now, content@))[k] by {
                            if k == key@ {
                                assert(cache_map(evs1)[evs1[i as int].0] == (now, content@));
                            } else {
                                let j = choose|j: int|
                                    0 <= j < evs1.len() && (#[trigger] evs1[j]).0 == k;
                                assert(j != i);
                                assert(evs0[j] == evs1[j]);
                                assert(cache_map(evs1)[k] == (evs1[j].1, evs1[j].2));
                                assert(cache_map(evs0)[k] == (evs0[j].1, evs0[j].2));
                            }
                        }
                    }
                }
            },
            None => {
                self.entries.push(new_entry);
                proof {
                    let evs1 = entry_views(self.entries@);
                    assert(evs1 =~= evs0.push((key@, now, content@)));
                    assert(keys_unique(evs1)) by {
                        assert forall|a: int, b: int| 0 <= a < b < evs1.len() implies (
                        #[trigger] evs1[a]).0 != (#[trigger] evs1[b]).0 by {
                            if b == evs0.len() {
                                assert(evs0[a].0 != key@);
                            } else {
                                assert(evs0[a].0 != evs0[b].0);
                            }
                        }
                    }
                    assert(evs1.drop_last() =~= evs0);
                    assert(cache_map(evs1) == cache_map(evs0).insert(key@, (now, content@)));
                }
            },
        }
    }
}

// ---------------------------------------------------------------------------
// Per-run refresh tracking
// ---------------------------------------------------------------------------

/// Tracks which keys were already revalidated during this run; with the
/// refresh switch off it never invalidates anything.
#[derive(Debug)]
pub struct RefreshTracker {
    /// The run's refresh switch.
    pub refresh: bool,
    /// Keys already revalidated once.
    pub rechecked: Vec<String>,
}

impl RefreshTracker {
    /// A tracker with no key revalidated yet.
    pub fn new(refresh: bool) -> (r: Self)
        ensures
            r.refresh == refresh,
            r.rechecked.deep_view() == Seq::<Seq<char>>::empty(),
    {
        let r = RefreshTracker { refresh, rechecked: Vec::new() };
        proof {
            assert(r.rechecked.deep_view() =~= Seq::<Seq<char>>::empty());
        }
        r
    }
}

/// Whether the cached value for `key` must be revalidated now: true exactly
/// once per distinct key per run, and only when the refresh switch is on.
pub fn cache_is_invalidated(tracker: &mut RefreshTracker, key: &str) -> (r: bool)
    ensures
        final(tracker).refresh == old(tracker).refresh,
        r == (old(tracker).refresh && !old(tracker).rechecked.deep_view().contains(key@)),
        r ==> final(tracker).rechecked.deep_view() == old(tracker).rechecked.deep_view().push(
            key@,
        ),
        !r ==> final(tracker).rechecked == old(tracker).rechecked,
{
    if !tracker.refresh {
        return false;
    }
    if contains_key_line(&tracker.rechecked, key) {
        return false;
    }
    let ghost dv0 = tracker.rechecked.deep_view();
    tracker.rechecked.push(key.to_owned());
    proof {
        assert(tracker.rechecked.deep_view() =~= dv0.push(key@));
    }
    true
}

/// Linear membership test among the revalidated keys.
fn contains_key_line(seen: &Vec<String>, line: &str) -> (r: bool)
    ensures
        r == seen.deep_view().contains(line@),
{
    let mut i: usize = 0;
    while i < seen.len()
        invariant
            i <= seen.len(),
            forall|j: int| 0 <= j < i ==> seen.deep_view()[j] != line@,
        decreases seen.len() - i,
    {
        if str_eq(seen[i].as_str(), line) {
            proof {
                assert(seen.deep_view()[i as int] == line@);
            }
            return true;
        }
        i += 1;
    }
    proof {
        assert(!seen.deep_view().contains(line@));
    }
    false
}

/// Relies on std's `Path::is_file`: whether the path points at an existing
/// regular file. The answer depends on the machine's disk, so nothing further
/// is promised.
#[verifier::external_body]
pub fn cache_exists(filepath: &str) -> bool {
    std::path::Path::new(filepath).is_file()
}

} // verus!
