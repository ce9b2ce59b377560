//! Caches keyed by path, the metadata cache that is valid while a file's
//! modification time is unchanged, and the search for an unused output name.
use vstd::prelude::*;
use crate::models::CachedImageInfo;
use crate::paths::{
    extension_of, joined_path, path_extension, path_join, path_key, path_key_of, path_parent, path_stem, parent_of,
    stem_of,
};
use crate::text::{chars_eq, chars_of, decimal, push_all, push_char, push_decimal};

verus! {

/// A map from paths to values, kept as an association list without
/// duplicate keys.
pub struct PathMap<V> {
    keys: Vec<String>,
    values: Vec<V>,
}

impl<V> PathMap<V> {
    /// Keys and values line up and no path occurs twice.
    pub closed spec fn inv(self) -> bool {
        &&& self.keys.len() == self.values.len()
        &&& forall|i: int, j: int|
            0 <= i < j < self.keys.len() ==> #[trigger] self.keys@[i]@ != #[trigger] self.keys@[j]@
    }

    /// The paths present in the map.
    pub closed spec fn dom(self) -> Set<Seq<char>> {
        Set::new(|k: Seq<char>| exists|i: int| 0 <= i < self.keys.len() && self.keys@[i]@ == k)
    }

    /// The value stored for a path present in the map.
    pub closed spec fn at(self, k: Seq<char>) -> V {
        let i = choose|i: int| 0 <= i < self.keys.len() && self.keys@[i]@ == k;
        self.values@[i]
    }

    /// The map as a mathematical map from paths to values.
    pub open spec fn view(self) -> Map<Seq<char>, V> {
        Map::new(|k: Seq<char>| self.dom().contains(k), |k: Seq<char>| self.at(k))
    }

    /// Number of paths in the map.
    pub closed spec fn count(self) -> nat {
        self.keys.len() as nat
    }

    pub fn new() -> (m: PathMap<V>)
        ensures
            m.inv(),
            m.view() == Map::<Seq<char>, V>::empty(),
            m.count() == 0,
    {
        let m = PathMap { keys: Vec::new(), values: Vec::new() };
        assert(m.view() =~= Map::<Seq<char>, V>::empty());
        m
    }

    /// Whether no path has a value.
    pub fn is_empty(&self) -> (b: bool)
        requires
            self.inv(),
        ensures
            b <==> self.view() == Map::<Seq<char>, V>::empty(),
    {
        if self.keys.len() == 0 {
            proof {
                assert(self.view() =~= Map::<Seq<char>, V>::empty());
            }
            true
        } else {
            proof {
                assert(self.dom().contains(self.keys@[0]@));
                assert(self.view().contains_key(self.keys@[0]@));
            }
            false
        }
    }

    /// Position of `k` among the keys, if present.
    fn find(&self, k: &Vec<char>) -> (r: Option<usize>)
        ensures
            match r {
                Some(i) => i < self.keys.len() && self.keys@[i as int]@ == k@,
                None => forall|i: int| 0 <= i < self.keys.len() ==> self.keys@[i]@ != k@,
            },
    {
        let mut i: usize = 0;
        while i < self.keys.len()
            invariant
                i <= self.keys.len(),
                forall|j: int| 0 <= j < i ==> self.keys@[j]@ != k@,
            decreases self.keys.len() - i,
        {
            let kv = chars_of(&self.keys[i]);
            if chars_eq(&kv, k) {
                return Some(i);
            }
            i = i + 1;
        }
        None
    }

    proof fn lemma_at_index(self, i: int)
        requires
            self.inv(),
            0 <= i < self.keys.len(),
        ensures
            self.view().contains_key(self.keys@[i]@),
            self.view()[self.keys@[i]@] == self.values@[i],
    {
        let k = self.keys@[i]@;
        assert(self.dom().contains(k));
        let j = choose|j: int| 0 <= j < self.keys.len() && self.keys@[j]@ == k;
        if j != i {
            if j < i {
                assert(self.keys@[j]@ != self.keys@[i]@);
            } else {
                assert(self.keys@[i]@ != self.keys@[j]@);
            }
        }
    }

    /// The value stored under the key `path`, taken as written.
    fn get_key(&self, path: &str) -> (r: Option<&V>)
        requires
            self.inv(),
        ensures
            match r {
                Some(v) => self.view().contains_key(path@) && *v == self.view()[path@],
                None => !self.view().contains_key(path@),
            },
    {
        let k = chars_of(path);
        match self.find(&k) {
            Some(i) => {
                proof {
                    self.lemma_at_index(i as int);
                }
                Some(&self.values[i])
            },
            None => {
                proof {
                    if self.dom().contains(path@) {
                        let j = choose|j: int| 0 <= j < self.keys.len() && self.keys@[j]@ == path@;
                        assert(self.keys@[j]@ != k@);
                    }
                }
                None
            },
        }
    }

    /// The value stored for `path`; paths that differ only in repeated or
    /// trailing `/` or in `.` components are the same path.
    pub fn get(&self, path: &str) -> (r: Option<&V>)
        requires
            self.inv(),
        ensures
            match r {
                Some(v) => self.view().contains_key(path_key_of(path@)) && *v == self.view()[path_key_of(path@)],
                None => !self.view().contains_key(path_key_of(path@)),
            },
    {
        let key = path_key(path);
        self.get_key(&key)
    }

    /// Whether `path` has a value.
    pub fn contains_key(&self, path: &str) -> (b: bool)
        requires
            self.inv(),
        ensures
            b == self.view().contains_key(path_key_of(path@)),
    {
        self.get(path).is_some()
    }

    /// Stores `value` for `path` (under its component form), replacing an
    /// earlier value for the same path.
    pub fn insert(&mut self, path: String, value: V)
        requires
            old(self).inv(),
        ensures
            final(self).inv(),
            final(self).view() == old(self).view().insert(path_key_of(path@), value),
    {
        let key = path_key(&path);
        self.insert_key(key, value);
    }

    /// Stores `value` under the key `path`, taken as written.
    fn insert_key(&mut self, path: String, value: V)
        requires
            old(self).inv(),
        ensures
            final(self).inv(),
            final(self).view() == old(self).view().insert(path@, value),
    {
        let k = chars_of(&path);
        let ghost old_map = self.view();
        match self.find(&k) {
            Some(i) => {
                let ghost old_keys = self.keys@;
                let ghost old_values = self.values@;
                self.values.set(i, value);
                proof {
                    assert(self.keys@ == old_keys);
                    assert(self.inv());
                    assert forall|key: Seq<char>|
                        #![auto]
                        self.view().contains_key(key) == old_map.insert(path@, value).contains_key(
                            key,
                        ) by {}
                    assert forall|key: Seq<char>|
                        #![auto]
                        self.view().contains_key(key) implies self.view()[key] == old_map.insert(
                            path@,
                            value,
                        )[key] by {
                        let j = choose|j: int| 0 <= j < self.keys.len() && self.keys@[j]@ == key;
                        self.lemma_at_index(j);
                        if key != path@ {
                            assert(j != i);
                            assert(old_values[j] == self.values@[j]);
                            assert(old_map.contains_key(key));
                            let jj = choose|jj: int|
                                0 <= jj < old_keys.len() && old_keys[jj]@ == key;
                            if jj != j {
                                if jj < j {
                                    assert(old_keys[jj]@ != old_keys[j]@);
                                } else {
                                    assert(old_keys[j]@ != old_keys[jj]@);
                                }
                            }
                        }
                    }
                    assert(self.view() =~= old_map.insert(path@, value));
                }
            },
            None => {
                let ghost old_keys = self.keys@;
                let ghost old_values = self.values@;
                self.keys.push(path);
                self.values.push(value);
                proof {
                    assert forall|a: int, b: int|
                        0 <= a < b < self.keys.len() implies #[trigger] self.keys@[a]@
                        != #[trigger] self.keys@[b]@ by {
                        if b == old_keys.len() {
                            assert(old_keys[a]@ != k@);
                        } else {
                            assert(old_keys[a]@ != old_keys[b]@);
                        }
                    }
                    assert(self.inv());
                    assert forall|key: Seq<char>|
                        #![auto]
                        self.view().contains_key(key) == old_map.insert(k@, value).contains_key(
                            key,
                        ) by {
                        if key == k@ {
                            assert(self.keys@[old_keys.len() as int]@ == key);
                        } else if old_map.contains_key(key) {
                            let jj = choose|jj: int|
                                0 <= jj < old_keys.len() && old_keys[jj]@ == key;
                            assert(self.keys@[jj]@ == key);
                        } else if self.view().contains_key(key) {
                            let j = choose|j: int| 0 <= j < self.keys.len() && self.keys@[j]@ == key;
                            assert(j < old_keys.len());
                            assert(old_keys[j]@ == key);
                        }
                    }
                    assert forall|key: Seq<char>|
                        #![auto]
                        self.view().contains_key(key) implies self.view()[key] == old_map.insert(
                            k@,
                            value,
                        )[key] by {
                        let j = choose|j: int| 0 <= j < self.keys.len() && self.keys@[j]@ == key;
                        self.lemma_at_index(j);
                        if key != k@ {
                            assert(j < old_keys.len());
                            let jj = choose|jj: int|
                                0 <= jj < old_keys.len() && old_keys[jj]@ == key;
                            if jj != j {
                                assert(self.keys@[jj]@ == key);
                                if jj < j {
                                    assert(self.keys@[jj]@ != self.keys@[j]@);
                                } else {
                                    assert(self.keys@[j]@ != self.keys@[jj]@);
                                }
                            }
                            assert(old_values[j] == self.values@[j]);
                        } else {
                            self.lemma_at_index(old_keys.len() as int);
                        }
                    }
                    assert(self.view() =~= old_map.insert(path@, value));
                }
            },
        }
    }
}

/// What the metadata cache answers for `path` when the file's current
/// modification time is `mtime` (0 when it could not be read): the entry
/// stored for the path (under its component form) if it was recorded for
/// that same, known time.
pub open spec fn cached_lookup(cache: Map<Seq<char>, CachedImageInfo>, path: Seq<char>, mtime: u64) -> Option<
    CachedImageInfo,
> {
    let k = path_key_of(path);
    if cache.contains_key(k) && mtime != 0 && cache[k].file_mtime == mtime {
        Some(cache[k])
    } else {
        None
    }
}

/// The cached metadata for `path`, provided it is still current: the file's
/// modification time `current_mtime` is known and equals the recorded one.
pub fn get_cached_metadata(
    metadata_cache: &PathMap<CachedImageInfo>,
    path: &str,
    current_mtime: u64,
) -> (res: Option<CachedImageInfo>)
    requires
        metadata_cache.inv(),
    ensures
        res == cached_lookup(metadata_cache.view(), path@, current_mtime),
{
    match metadata_cache.get(path) {
        Some(cached) => {
            if current_mtime != 0 && cached.file_mtime == current_mtime {
                Some(cached.copied())
            } else {
                None
            }
        },
        None => None,
    }
}

/// Records metadata for `path`, replacing what was cached before.
pub fn cache_metadata(metadata_cache: &mut PathMap<CachedImageInfo>, path: String, info: CachedImageInfo)
    requires
        old(metadata_cache).inv(),
    ensures
        final(metadata_cache).inv(),
        final(metadata_cache).view() == old(metadata_cache).view().insert(path_key_of(path@), info),
{
    metadata_cache.insert(path, info);
}

/// Metadata recorded for a file is returned for the same path as long as
/// the file's modification time is the recorded, known one; any other time
/// (or an unknown one) gives nothing.
pub proof fn law_cache_read_after_write(
    cache: Map<Seq<char>, CachedImageInfo>,
    path: Seq<char>,
    info: CachedImageInfo,
    mtime: u64,
)
    ensures
        cached_lookup(cache.insert(path_key_of(path), info), path, mtime) == if mtime != 0 && mtime
            == info.file_mtime {
            Some(info)
        } else {
            None
        },
{
}

/// Recording metadata for one path leaves what the cache answers for every
/// other path unchanged; two spellings of one path (differing only in
/// repeated or trailing `/` or in `.` components) get the same answer.
pub proof fn law_cache_other_paths(
    cache: Map<Seq<char>, CachedImageInfo>,
    path: Seq<char>,
    info: CachedImageInfo,
    other: Seq<char>,
    mtime: u64,
)
    requires
        path_key_of(other) != path_key_of(path),
    ensures
        cached_lookup(cache.insert(path_key_of(path), info), other, mtime) == cached_lookup(cache, other, mtime),
{
}

/// Two spellings of one path (the same components) get the same answer
/// from the cache.
pub proof fn law_cache_same_path(cache: Map<Seq<char>, CachedImageInfo>, a: Seq<char>, b: Seq<char>, mtime: u64)
    requires
        path_key_of(a) == path_key_of(b),
    ensures
        cached_lookup(cache, a, mtime) == cached_lookup(cache, b, mtime),
{
}

/// The name tried for number `counter` in the search for an unused output
/// path: the path itself for 0, otherwise `stem_n.ext` (or `stem_n` without
/// an extension) beside it, with `file` for a missing stem and `.` for a
/// missing parent.
pub open spec fn unique_candidate(path: Seq<char>, counter: nat) -> Seq<char> {
    if counter == 0 {
        path
    } else {
        let parent = match parent_of(path) {
            Some(p) => p,
            None => "."@,
        };
        let stem = match stem_of(path) {
            Some(s) => s,
            None => "file"@,
        };
        let name = match extension_of(path) {
            Some(e) => stem.push('_') + decimal(counter) + seq!['.'] + e,
            None => stem.push('_') + decimal(counter),
        };
        joined_path(parent, name)
    }
}

/// The search for an output path that does not exist yet. The caller checks
/// each `candidate` on disk and calls `advance` while it exists.
pub struct UniquePathSearch {
    path: String,
    counter: u64,
}

impl UniquePathSearch {
    pub closed spec fn base(self) -> Seq<char> {
        self.path@
    }

    pub closed spec fn step(self) -> nat {
        self.counter as nat
    }

    /// The path currently proposed.
    pub fn candidate(&self) -> (res: String)
        ensures
            res@ == unique_candidate(self.base(), self.step()),
    {
        if self.counter == 0 {
            return self.path.clone();
        }
        let parent = match path_parent(&self.path) {
            Some(p) => p,
            None => ".".to_owned(),
        };
        let stem = match path_stem(&self.path) {
            Some(s) => s,
            None => "file".to_owned(),
        };
        let mut name = stem;
        push_char(&mut name, '_');
        push_decimal(&mut name, self.counter);
        match path_extension(&self.path) {
            Some(e) => {
                push_char(&mut name, '.');
                push_all(&mut name, &e);
            },
            None => {},
        }
        proof {
            let st = match stem_of(self.path@) {
                Some(s) => s,
                None => "file"@,
            };
            match extension_of(self.path@) {
                Some(e) => {
                    assert(name@ =~= st.push('_') + decimal(self.counter as nat) + seq!['.'] + e);
                },
                None => {
                    assert(name@ =~= st.push('_') + decimal(self.counter as nat));
                },
            }
        }
        path_join(&parent, &name)
    }

    /// Moves on to the next candidate after the current one was found
    /// taken: after the path itself comes number 2, then 3 and so on.
    pub fn advance(&mut self)
        requires
            old(self).step() < u64::MAX,
        ensures
            final(self).base() == old(self).base(),
            final(self).step() == if old(self).step() == 0 {
                2
            } else {
                old(self).step() + 1
            },
    {
        self.counter = if self.counter == 0 {
            2
        } else {
            self.counter + 1
        };
    }
}

/// Starts the search for an unused path; the first candidate is `path`.
pub fn get_unique_path(path: &str) -> (s: UniquePathSearch)
    ensures
        s.base() == path@,
        s.step() == 0,
{
    UniquePathSearch { path: path.to_string(), counter: 0 }
}

} // verus!
