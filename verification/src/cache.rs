use vstd::prelude::*;

use crate::paths::{compare_keys, key_lt, key_view, keys_sorted, lemma_key_lt_asymmetric, lemma_key_lt_irreflexive,
    lemma_key_lt_total, lemma_key_lt_transitive, path_key, spec_path_components};
use crate::text::Order;

verus! {

/// What the library cache remembers of one file.
#[derive(Debug, Clone)]
pub struct CachedTrackMeta {
    pub mtime: u64,
    pub size: u64,
    pub title: String,
    pub artist: String,
    pub album: String,
    pub duration_secs: u64,
    pub duration_nanos: u32,
    pub track_number: Option<u32>,
}

impl CachedTrackMeta {
    /// A copy of the record.
    pub fn duplicate(&self) -> (m: CachedTrackMeta)
        ensures
            m == *self,
    {
        CachedTrackMeta {
            mtime: self.mtime,
            size: self.size,
            title: self.title.clone(),
            artist: self.artist.clone(),
            album: self.album.clone(),
            duration_secs: self.duration_secs,
            duration_nanos: self.duration_nanos,
            track_number: self.track_number,
        }
    }
}

/// One record of the cache with the path of its file.
#[derive(Debug, Clone)]
pub struct CacheEntry {
    pub path: String,
    pub meta: CachedTrackMeta,
}

/// The metadata of scanned files by path, so that unchanged files need not
/// be read again. Paths are told apart as paths, by their components, so
/// `/m//a.mp3` and `/m/a.mp3` are one path. Entries are kept sorted by the
/// components of their paths, each path once.
pub struct LibraryCache {
    entries: Vec<CacheEntry>,
}

/// The components of an entry's path: what the cache is keyed by.
pub open spec fn entry_key(e: CacheEntry) -> Seq<Seq<char>> {
    spec_path_components(e.path@)
}

/// The paths of entries, in order.
pub open spec fn entry_paths(s: Seq<CacheEntry>) -> Seq<Seq<char>> {
    s.map_values(|e: CacheEntry| e.path@)
}

/// The keys of entries, in order.
pub open spec fn entry_keys(s: Seq<CacheEntry>) -> Seq<Seq<Seq<char>>> {
    s.map_values(|e: CacheEntry| entry_key(e))
}

/// Some entry has key `k`.
pub open spec fn has_path(s: Seq<CacheEntry>, k: Seq<Seq<char>>) -> bool {
    exists|i: int| 0 <= i < s.len() && entry_key(#[trigger] s[i]) == k
}

/// The map from keys to records that sorted entries stand for.
pub open spec fn entries_map(s: Seq<CacheEntry>) -> Map<Seq<Seq<char>>, CachedTrackMeta> {
    Map::new(|k: Seq<Seq<char>>| has_path(s, k), |k: Seq<Seq<char>>| s[index_of_path(s, k)].meta)
}

/// A position of an entry with key `k`.
pub open spec fn index_of_path(s: Seq<CacheEntry>, k: Seq<Seq<char>>) -> int {
    choose|i: int| 0 <= i < s.len() && entry_key(#[trigger] s[i]) == k
}

proof fn lemma_lookup(s: Seq<CacheEntry>, i: int)
    requires
        keys_sorted(entry_keys(s)),
        0 <= i < s.len(),
    ensures
        entries_map(s).contains_key(entry_key(s[i])),
        entries_map(s)[entry_key(s[i])] == s[i].meta,
{
    let k = entry_key(s[i]);
    assert(has_path(s, k));
    let j = index_of_path(s, k);
    if j != i {
        lemma_key_lt_irreflexive(k);
        if j < i {
            assert(key_lt(entry_keys(s)[j], entry_keys(s)[i]));
        } else {
            assert(key_lt(entry_keys(s)[i], entry_keys(s)[j]));
        }
    }
}

impl LibraryCache {
    #[verifier::type_invariant]
    spec fn well_formed(self) -> bool {
        keys_sorted(entry_keys(self.entries@))
    }

    /// The records by the components of their paths.
    pub closed spec fn view(&self) -> Map<Seq<Seq<char>>, CachedTrackMeta> {
        entries_map(self.entries@)
    }

    /// The paths in the cache, in increasing order of their components.
    pub closed spec fn paths_spec(&self) -> Seq<Seq<char>> {
        entry_paths(self.entries@)
    }

    /// The components of the paths in the cache, in increasing order.
    pub closed spec fn keys_spec(&self) -> Seq<Seq<Seq<char>>> {
        entry_keys(self.entries@)
    }

    /// An empty cache.
    pub fn new() -> (c: LibraryCache)
        ensures
            c@ == Map::<Seq<Seq<char>>, CachedTrackMeta>::empty(),
            c.paths_spec().len() == 0,
    {
        let c = LibraryCache { entries: Vec::new() };
        assert(c@ =~= Map::<Seq<Seq<char>>, CachedTrackMeta>::empty());
        c
    }

    /// Where `key` is or would go: the number of paths below it, and whether
    /// the path there is `key`.
    fn locate(&self, key: &Vec<Vec<char>>) -> (r: (usize, bool))
        ensures
            r.0 <= self.entries@.len(),
            forall|i: int| 0 <= i < r.0 ==> key_lt(#[trigger] entry_keys(self.entries@)[i], key_view(key@)),
            forall|i: int| r.0 <= i < self.entries@.len() ==> !key_lt(#[trigger] entry_keys(self.entries@)[i], key_view(key@)),
            r.1 == (r.0 < self.entries@.len() && entry_keys(self.entries@)[r.0 as int] == key_view(key@)),
    {
        proof { use_type_invariant(self); }
        let ghost ks = entry_keys(self.entries@);
        let mut lo: usize = 0;
        let mut hi: usize = self.entries.len();
        while lo < hi
            invariant
                ks == entry_keys(self.entries@),
                keys_sorted(ks),
                lo <= hi <= self.entries@.len(),
                forall|i: int| 0 <= i < lo ==> key_lt(#[trigger] ks[i], key_view(key@)),
                forall|i: int| hi <= i < ks.len() ==> !key_lt(#[trigger] ks[i], key_view(key@)),
            decreases hi - lo,
        {
            let mid = lo + (hi - lo) / 2;
            let k = path_key(self.entries[mid].path.as_str());
            if compare_keys(&k, key) == Order::Less {
                proof {
                    assert forall|i: int| 0 <= i < mid + 1 implies key_lt(#[trigger] ks[i], key_view(key@)) by {
                        if i < mid {
                            lemma_key_lt_transitive(ks[i], ks[mid as int], key_view(key@));
                        }
                    }
                }
                lo = mid + 1;
            } else {
                proof {
                    assert forall|i: int| mid <= i < ks.len() implies !key_lt(#[trigger] ks[i], key_view(key@)) by {
                        if i > mid && key_lt(ks[i], key_view(key@)) {
                            lemma_key_lt_total(ks[mid as int], key_view(key@));
                            if ks[mid as int] == key_view(key@) {
                                lemma_key_lt_asymmetric(ks[mid as int], ks[i]);
                            } else {
                                lemma_key_lt_transitive(key_view(key@), ks[mid as int], ks[i]);
                                lemma_key_lt_asymmetric(key_view(key@), ks[i]);
                            }
                        }
                    }
                }
                hi = mid;
            }
        }
        if lo < self.entries.len() {
            let k = path_key(self.entries[lo].path.as_str());
            let eq = compare_keys(&k, key) == Order::Equal;
            (lo, eq)
        } else {
            (lo, false)
        }
    }
}


/// The map of sorted entries is `m` when both hold the same paths and each
/// entry's record is what `m` holds for its path.
proof fn lemma_map_equal(t: Seq<CacheEntry>, m: Map<Seq<Seq<char>>, CachedTrackMeta>)
    requires
        keys_sorted(entry_keys(t)),
        forall|k: Seq<Seq<char>>| #[trigger] m.contains_key(k) ==> has_path(t, k),
        forall|i: int| 0 <= i < t.len() ==> m.contains_key(entry_key(#[trigger] t[i])) && m[entry_key(t[i])] == t[i].meta,
    ensures
        entries_map(t) == m,
{
    assert forall|k: Seq<Seq<char>>| #[trigger] entries_map(t).contains_key(k) <==> m.contains_key(k) by {
        if has_path(t, k) {
            let i = choose|i: int| 0 <= i < t.len() && entry_key(#[trigger] t[i]) == k;
            assert(m.contains_key(entry_key(t[i])));
        }
    }
    assert forall|k: Seq<Seq<char>>| #[trigger] entries_map(t).contains_key(k) implies entries_map(t)[k] == m[k] by {
        let i = choose|i: int| 0 <= i < t.len() && entry_key(#[trigger] t[i]) == k;
        lemma_lookup(t, i);
    }
    assert(entries_map(t) =~= m);
}

/// No path equals `key` when `locate` found it missing at `pos`.
proof fn lemma_absent(ks: Seq<Seq<Seq<char>>>, key: Seq<Seq<char>>, pos: int)
    requires
        keys_sorted(ks),
        0 <= pos <= ks.len(),
        forall|i: int| 0 <= i < pos ==> key_lt(#[trigger] ks[i], key),
        forall|i: int| pos <= i < ks.len() ==> !key_lt(#[trigger] ks[i], key),
        !(pos < ks.len() && ks[pos] == key),
    ensures
        forall|i: int| 0 <= i < ks.len() ==> #[trigger] ks[i] != key,
        forall|i: int| pos <= i < ks.len() ==> key_lt(key, #[trigger] ks[i]),
{
    lemma_key_lt_irreflexive(key);
    assert forall|i: int| pos <= i < ks.len() implies key_lt(key, #[trigger] ks[i]) by {
        lemma_key_lt_total(key, ks[i]);
        if key == ks[i] && i > pos {
            assert(key_lt(ks[pos], ks[i]));
            lemma_key_lt_total(ks[pos], key);
        }
    }
}

impl LibraryCache {
    /// The record for `path`, when there is one.
    pub fn get(&self, path: &str) -> (m: Option<&CachedTrackMeta>)
        ensures
            match m {
                Some(r) => self@.contains_key(spec_path_components(path@)) && *r == self@[spec_path_components(path@)],
                None => !self@.contains_key(spec_path_components(path@)),
            },
    {
        proof { use_type_invariant(self); }
        let key = path_key(path);
        let (pos, found) = self.locate(&key);
        if found {
            proof { lemma_lookup(self.entries@, pos as int); }
            Some(&self.entries[pos].meta)
        } else {
            proof {
                lemma_absent(entry_keys(self.entries@), key_view(key@), pos as int);
                if has_path(self.entries@, spec_path_components(path@)) {
                    let i = choose|i: int| 0 <= i < self.entries@.len() && entry_key(#[trigger] self.entries@[i]) == spec_path_components(path@);
                    assert(entry_keys(self.entries@)[i] == spec_path_components(path@));
                }
            }
            None
        }
    }

    /// Sets the record for `path` to `meta`, replacing any earlier one; a
    /// path already there keeps the text it was stored under.
    pub fn insert(&mut self, path: String, meta: CachedTrackMeta)
        ensures
            final(self)@ == old(self)@.insert(spec_path_components(path@), meta),
            old(self)@.contains_key(spec_path_components(path@)) ==> final(self).paths_spec() == old(self).paths_spec(),
    {
        proof { use_type_invariant(&*self); }
        let key = path_key(path.as_str());
        let (pos, found) = self.locate(&key);
        let ghost old_entries = self.entries@;
        let ghost ks = entry_keys(old_entries);
        let ghost m = entries_map(old_entries).insert(spec_path_components(path@), meta);
        let mut entries: Vec<CacheEntry> = Vec::new();
        std::mem::swap(&mut entries, &mut self.entries);
        assert(entries@ == old_entries);
        if found {
            let kept_path = entries[pos].path.clone();
            let entry = CacheEntry { path: kept_path, meta };
            assert(entry_key(entry) == ks[pos as int]);
            entries.set(pos, entry);
            proof {
                let t = entries@;
                assert(entry_keys(t) =~= ks);
                assert(entry_paths(t) =~= entry_paths(old_entries));
                assert forall|k: Seq<Seq<char>>| #[trigger] m.contains_key(k) implies has_path(t, k) by {
                    if k == entry_key(entry) {
                        assert(entry_key(t[pos as int]) == k);
                    } else {
                        let i = choose|i: int| 0 <= i < old_entries.len() && entry_key(#[trigger] old_entries[i]) == k;
                        assert(entry_key(t[i]) == k);
                    }
                }
                assert forall|i: int| 0 <= i < t.len() implies m.contains_key(entry_key(#[trigger] t[i])) && m[entry_key(t[i])] == t[i].meta by {
                    if i != pos {
                        lemma_lookup(old_entries, i);
                        assert(ks[i] != ks[pos as int]) by {
                            lemma_key_lt_irreflexive(ks[i]);
                        }
                    }
                }
                lemma_map_equal(t, m);
            }
        } else {
            proof {
                lemma_absent(ks, key_view(key@), pos as int);
                if entries_map(old_entries).contains_key(spec_path_components(path@)) {
                    let i = choose|i: int| 0 <= i < old_entries.len() && entry_key(#[trigger] old_entries[i]) == spec_path_components(path@);
                    assert(ks[i] == key_view(key@));
                }
            }
            let entry = CacheEntry { path, meta };
            entries.insert(pos, entry);
            proof {
                let t = entries@;
                assert(entry_keys(t) =~= ks.insert(pos as int, key_view(key@)));
                assert forall|i: int, j: int| 0 <= i < j < t.len() implies key_lt(#[trigger] entry_keys(t)[i], #[trigger] entry_keys(t)[j]) by {
                    let kt = entry_keys(t);
                    if j < pos {
                    } else if j == pos {
                    } else if i > pos {
                        assert(kt[i] == ks[i - 1] && kt[j] == ks[j - 1]);
                    } else if i == pos {
                        assert(kt[j] == ks[j - 1]);
                    } else {
                        assert(kt[j] == ks[j - 1]);
                        lemma_key_lt_transitive(ks[i], key_view(key@), ks[j - 1]);
                    }
                }
                assert forall|k: Seq<Seq<char>>| #[trigger] m.contains_key(k) implies has_path(t, k) by {
                    if k == key_view(key@) {
                        assert(entry_key(t[pos as int]) == k);
                    } else {
                        let i = choose|i: int| 0 <= i < old_entries.len() && entry_key(#[trigger] old_entries[i]) == k;
                        if i < pos {
                            assert(entry_key(t[i]) == k);
                        } else {
                            assert(entry_key(t[i + 1]) == k);
                        }
                    }
                }
                assert forall|i: int| 0 <= i < t.len() implies m.contains_key(entry_key(#[trigger] t[i])) && m[entry_key(t[i])] == t[i].meta by {
                    if i < pos {
                        lemma_lookup(old_entries, i);
                        assert(ks[i] != key_view(key@));
                    } else if i > pos {
                        lemma_lookup(old_entries, i - 1);
                        assert(ks[i - 1] != key_view(key@));
                        assert(t[i] == old_entries[i - 1]);
                    }
                }
                lemma_map_equal(t, m);
            }
        }
        self.entries = entries;
    }

    /// Removes the record for `path`, when there is one.
    pub fn remove(&mut self, path: &str)
        ensures
            final(self)@ == old(self)@.remove(spec_path_components(path@)),
    {
        proof { use_type_invariant(&*self); }
        let key = path_key(path);
        let (pos, found) = self.locate(&key);
        let ghost old_entries = self.entries@;
        let ghost ks = entry_keys(old_entries);
        let ghost m = entries_map(old_entries).remove(spec_path_components(path@));
        if found {
            let mut entries: Vec<CacheEntry> = Vec::new();
        std::mem::swap(&mut entries, &mut self.entries);
            assert(entries@ == old_entries);
            entries.remove(pos);
            proof {
                let t = entries@;
                assert(entry_keys(t) =~= ks.remove(pos as int));
                assert forall|i: int, j: int| 0 <= i < j < t.len() implies key_lt(#[trigger] entry_keys(t)[i], #[trigger] entry_keys(t)[j]) by {
                    let kt = entry_keys(t);
                    if j < pos {
                    } else if i >= pos {
                        assert(kt[i] == ks[i + 1] && kt[j] == ks[j + 1]);
                    } else {
                        assert(kt[j] == ks[j + 1]);
                    }
                }
                assert forall|k: Seq<Seq<char>>| #[trigger] m.contains_key(k) implies has_path(t, k) by {
                    let i = choose|i: int| 0 <= i < old_entries.len() && entry_key(#[trigger] old_entries[i]) == k;
                    assert(i != pos);
                    if i < pos {
                        assert(entry_key(t[i]) == k);
                    } else {
                        assert(entry_key(t[i - 1]) == k);
                    }
                }
                assert forall|i: int| 0 <= i < t.len() implies m.contains_key(entry_key(#[trigger] t[i])) && m[entry_key(t[i])] == t[i].meta by {
                    lemma_key_lt_irreflexive(key_view(key@));
                    if i < pos {
                        lemma_lookup(old_entries, i);
                        assert(t[i] == old_entries[i]);
                        assert(key_lt(ks[i], ks[pos as int]));
                    } else {
                        lemma_lookup(old_entries, i + 1);
                        assert(t[i] == old_entries[i + 1]);
                        assert(key_lt(ks[pos as int], ks[i + 1]));
                    }
                }
                lemma_map_equal(t, m);
            }
            self.entries = entries;
        } else {
            proof {
                lemma_absent(ks, key_view(key@), pos as int);
                assert(!entries_map(old_entries).contains_key(spec_path_components(path@))) by {
                    if has_path(old_entries, spec_path_components(path@)) {
                        let i = choose|i: int| 0 <= i < old_entries.len() && entry_key(#[trigger] old_entries[i]) == spec_path_components(path@);
                        assert(ks[i] == spec_path_components(path@));
                    }
                }
                assert(m =~= entries_map(old_entries));
            }
        }
    }
}

/// A record stored under a path is what a later lookup of that path finds,
/// and storing it leaves every other path's record as it was.
pub proof fn law_get_after_insert(m: Map<Seq<Seq<char>>, CachedTrackMeta>, path: Seq<Seq<char>>, other: Seq<Seq<char>>, meta: CachedTrackMeta)
    requires
        other != path,
    ensures
        m.insert(path, meta).contains_key(path),
        m.insert(path, meta)[path] == meta,
        m.insert(path, meta).contains_key(other) == m.contains_key(other),
        m.contains_key(other) ==> m.insert(path, meta)[other] == m[other],
{
}

/// After removing a path no record is found under it, and other paths keep
/// their records.
pub proof fn law_get_after_remove(m: Map<Seq<Seq<char>>, CachedTrackMeta>, path: Seq<Seq<char>>, other: Seq<Seq<char>>)
    requires
        other != path,
    ensures
        !m.remove(path).contains_key(path),
        m.remove(path).contains_key(other) == m.contains_key(other),
        m.contains_key(other) ==> m.remove(path)[other] == m[other],
{
}


/// The records after storing each of `fresh` in turn.
pub open spec fn insert_all(m: Map<Seq<Seq<char>>, CachedTrackMeta>, fresh: Seq<CacheEntry>) -> Map<Seq<Seq<char>>, CachedTrackMeta>
    decreases fresh.len(),
{
    if fresh.len() == 0 {
        m
    } else {
        insert_all(m, fresh.drop_last()).insert(entry_key(fresh.last()), fresh.last().meta)
    }
}

impl LibraryCache {
    /// The entries, sorted by the components of their paths, each path once.
    pub fn entries(&self) -> (e: &Vec<CacheEntry>)
        ensures
            entries_map(e@) == self@,
            entry_paths(e@) == self.paths_spec(),
            entry_keys(e@) == self.keys_spec(),
            keys_sorted(entry_keys(e@)),
    {
        proof { use_type_invariant(self); }
        &self.entries
    }

    /// The paths in the cache, in increasing order of their components.
    pub fn paths(&self) -> (p: Vec<String>)
        ensures
            p@.map_values(|s: String| s@) == self.paths_spec(),
            forall|k: Seq<Seq<char>>| #[trigger] self@.contains_key(k) <==> self.keys_spec().contains(k),
    {
        let mut p: Vec<String> = Vec::new();
        for i in 0..self.entries.len()
            invariant
                p@.map_values(|s: String| s@) == entry_paths(self.entries@).take(i as int),
        {
            p.push(self.entries[i].path.clone());
            proof {
                assert(entry_paths(self.entries@).take(i + 1) =~= entry_paths(self.entries@).take(i as int).push(self.entries@[i as int].path@));
                assert(p@.map_values(|s: String| s@) =~= entry_paths(self.entries@).take(i as int).push(self.entries@[i as int].path@));
            }
        }
        proof {
            assert(entry_paths(self.entries@).take(self.entries@.len() as int) =~= entry_paths(self.entries@));
            assert forall|k: Seq<Seq<char>>| #[trigger] self@.contains_key(k) <==> self.keys_spec().contains(k) by {
                if has_path(self.entries@, k) {
                    let i = choose|i: int| 0 <= i < self.entries@.len() && entry_key(#[trigger] self.entries@[i]) == k;
                    assert(self.keys_spec()[i] == k);
                }
                if self.keys_spec().contains(k) {
                    let i = choose|i: int| 0 <= i < self.keys_spec().len() && self.keys_spec()[i] == k;
                    assert(entry_key(self.entries@[i]) == k);
                }
            }
        }
        p
    }

    /// Keeps the record of the path at position `i` of `paths()` exactly
    /// when `present[i]` holds; returns whether any record was dropped.
    pub fn retain_present(&mut self, present: &Vec<bool>) -> (dropped: bool)
        requires
            present@.len() == old(self).paths_spec().len(),
        ensures
            final(self)@ == old(self)@.restrict(Set::new(|k: Seq<Seq<char>>| exists|i: int|
                0 <= i < present@.len() && old(self).keys_spec()[i] == k && #[trigger] present@[i])),
            dropped == exists|i: int| 0 <= i < present@.len() && !#[trigger] present@[i],
    {
        proof { use_type_invariant(&*self); }
        let ghost old_entries = self.entries@;
        let ghost ks = entry_keys(old_entries);
        let ghost keep = Set::new(|k: Seq<Seq<char>>| exists|i: int| 0 <= i < present@.len() && ks[i] == k && #[trigger] present@[i]);
        let mut kept: Vec<CacheEntry> = Vec::new();
        let mut dropped = false;
        let mut src: Vec<CacheEntry> = Vec::new();
        std::mem::swap(&mut src, &mut self.entries);
        assert(src@ == old_entries);
        let ghost mut from: Seq<int> = Seq::empty();
        for i in 0..src.len()
            invariant
                src@ == old_entries,
                ks == entry_keys(old_entries),
                keys_sorted(ks),
                present@.len() == ks.len(),
                from.len() == kept@.len(),
                forall|j: int| 0 <= j < from.len() ==> 0 <= #[trigger] from[j] < i && present@[from[j]] && kept@[j] == old_entries[from[j]],
                forall|j: int, l: int| 0 <= j < l < from.len() ==> #[trigger] from[j] < #[trigger] from[l],
                forall|j: int| 0 <= j < i && present@[j] ==> exists|l: int| 0 <= l < from.len() && #[trigger] from[l] == j,
                dropped == exists|j: int| 0 <= j < i && !#[trigger] present@[j],
        {
            let ghost from0 = from;
            if present[i] {
                kept.push(src[i].clone_entry());
                proof {
                    from = from.push(i as int);
                    assert(from[from.len() - 1] == i);
                }
            } else {
                dropped = true;
            }
            proof {
                assert forall|j: int| 0 <= j < i + 1 && present@[j] implies exists|l: int| 0 <= l < from.len() && #[trigger] from[l] == j by {
                    if j < i {
                        let l = choose|l: int| 0 <= l < from0.len() && #[trigger] from0[l] == j;
                        assert(from[l] == j);
                    } else {
                        assert(from[from.len() - 1] == j);
                    }
                }
            }
        }
        proof {
            let t = kept@;
            assert forall|a: int, b: int| 0 <= a < b < t.len() implies key_lt(#[trigger] entry_keys(t)[a], #[trigger] entry_keys(t)[b]) by {
                assert(from[a] < from[b]);
                assert(entry_keys(t)[a] == ks[from[a]]);
                assert(entry_keys(t)[b] == ks[from[b]]);
            }
            let m = entries_map(old_entries).restrict(keep);
            assert forall|k: Seq<Seq<char>>| #[trigger] m.contains_key(k) implies has_path(t, k) by {
                let i = choose|i: int| 0 <= i < present@.len() && ks[i] == k && #[trigger] present@[i];
                let l = choose|l: int| 0 <= l < from.len() && #[trigger] from[l] == i;
                assert(entry_key(t[l]) == k);
            }
            assert forall|j: int| 0 <= j < t.len() implies m.contains_key(entry_key(#[trigger] t[j])) && m[entry_key(t[j])] == t[j].meta by {
                lemma_lookup(old_entries, from[j]);
                assert(ks[from[j]] == entry_key(t[j]));
                assert(keep.contains(entry_key(t[j])));
            }
            lemma_map_equal(t, m);
        }
        self.entries = kept;
        dropped
    }

    /// Stores each of `fresh` in turn; returns whether there was any.
    pub fn absorb(&mut self, fresh: Vec<CacheEntry>) -> (changed: bool)
        ensures
            final(self)@ == insert_all(old(self)@, fresh@),
            changed == (fresh@.len() > 0),
    {
        let n = fresh.len();
        let mut i: usize = 0;
        let ghost start = self@;
        while i < n
            invariant
                i <= n,
                n == fresh@.len(),
                self@ == insert_all(start, fresh@.take(i as int)),
            decreases n - i,
        {
            let e = fresh[i].clone_entry();
            self.insert(e.path, e.meta);
            proof {
                assert(fresh@.take(i + 1).drop_last() =~= fresh@.take(i as int));
            }
            i = i + 1;
        }
        proof {
            assert(fresh@.take(n as int) =~= fresh@);
        }
        n > 0
    }
}

impl CacheEntry {
    /// A copy of the entry.
    pub fn clone_entry(&self) -> (e: CacheEntry)
        ensures
            e == *self,
    {
        CacheEntry { path: self.path.clone(), meta: self.meta.duplicate() }
    }
}

} // verus!
