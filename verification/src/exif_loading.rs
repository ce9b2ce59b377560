//! When camera metadata is taken from the cache, when it has to be read
//! from a file, and how what was read is stored.
use vstd::prelude::*;
use crate::cache::PathMap;
use crate::models::{ExifData, ImageFile};
use crate::paths::path_key_of;
use crate::state::{model_wf, App, AppModel};

verus! {

/// A file that should show camera metadata and has none yet.
pub open spec fn exif_wanted(f: ImageFile) -> bool {
    f.needs_exif && f.exif_data is None
}

/// The file after consulting the cache: the cached metadata is taken when
/// the file wants it and the cache has it.
pub open spec fn exif_from_cache(f: ImageFile, cache: Map<Seq<char>, ExifData>) -> ImageFile {
    if exif_wanted(f) && cache.contains_key(path_key_of(f.path@)) {
        ImageFile { exif_data: Some(cache[path_key_of(f.path@)]), ..f }
    } else {
        f
    }
}

/// Whether the metadata of a file has to be read from disk.
pub open spec fn exif_must_read(f: ImageFile, cache: Map<Seq<char>, ExifData>) -> bool {
    exif_wanted(f) && !cache.contains_key(path_key_of(f.path@))
}

impl ImageFile {
    /// Takes the camera metadata from the cache when the file wants it;
    /// returns whether it has to be read from the file instead.
    pub fn load_exif_if_needed(&mut self, exif_cache: &PathMap<ExifData>) -> (must_read: bool)
        requires
            exif_cache.inv(),
        ensures
            must_read == exif_must_read(*old(self), exif_cache.view()),
            *final(self) == exif_from_cache(*old(self), exif_cache.view()),
    {
        if self.needs_exif && self.exif_data.is_none() {
            match exif_cache.get(&self.path) {
                Some(cached) => {
                    self.exif_data = Some(cached.copied());
                    false
                },
                None => true,
            }
        } else {
            false
        }
    }

    /// Stores metadata read from the file: it is kept on the file and, when
    /// there is some, in the cache under the file's path.
    pub fn store_exif(&mut self, exif_cache: &mut PathMap<ExifData>, data: Option<ExifData>)
        requires
            old(exif_cache).inv(),
        ensures
            final(exif_cache).inv(),
            *final(self) == (ImageFile { exif_data: data, ..*old(self) }),
            final(exif_cache).view() == match data {
                Some(d) => old(exif_cache).view().insert(path_key_of(old(self).path@), d),
                None => old(exif_cache).view(),
            },
    {
        match &data {
            Some(d) => {
                exif_cache.insert(self.path.clone(), d.copied());
            },
            None => {},
        }
        self.exif_data = data;
    }
}

/// The model after file `i` consulted the metadata cache.
pub open spec fn exif_lookup_step(m: AppModel, i: usize) -> AppModel {
    AppModel { files: m.files.update(i as int, exif_from_cache(m.files[i as int], m.exif_cache)), ..m }
}

/// The model after metadata was read for file `i`.
pub open spec fn exif_store_step(m: AppModel, i: usize, data: Option<ExifData>) -> AppModel {
    let f = m.files[i as int];
    AppModel {
        files: m.files.update(i as int, ImageFile { exif_data: data, ..f }),
        exif_cache: match data {
            Some(d) => m.exif_cache.insert(path_key_of(f.path@), d),
            None => m.exif_cache,
        },
        ..m
    }
}

/// The files of `start..end` whose metadata a preload reads: those that
/// want it and are not cached, with their paths.
pub open spec fn preload_targets(
    files: Seq<ImageFile>,
    cache: Map<Seq<char>, ExifData>,
    start: int,
    end: int,
) -> Seq<(usize, Seq<char>)>
    decreases end - start,
{
    if end <= start {
        Seq::empty()
    } else {
        let r = preload_targets(files, cache, start, end - 1);
        let f = files[end - 1];
        if exif_must_read(f, cache) {
            r.push(((end - 1) as usize, f.path@))
        } else {
            r
        }
    }
}

/// The model after the metadata read by a preload is stored, in order;
/// files for which nothing was found are left as they are.
pub open spec fn preload_store(m: AppModel, results: Seq<(usize, Option<ExifData>)>) -> AppModel
    decreases results.len(),
{
    if results.len() == 0 {
        m
    } else {
        let m1 = preload_store(m, results.drop_last());
        let (i, d) = results.last();
        match d {
            Some(x) => exif_store_step(m1, i, Some(x)),
            None => m1,
        }
    }
}

proof fn lemma_preload_store_keeps(m: AppModel, results: Seq<(usize, Option<ExifData>)>)
    requires
        model_wf(m),
        forall|k: int| 0 <= k < results.len() ==> (#[trigger] results[k]).0 < m.files.len(),
    ensures
        preload_store(m, results).files.len() == m.files.len(),
        preload_store(m, results) == (AppModel {
            files: preload_store(m, results).files,
            exif_cache: preload_store(m, results).exif_cache,
            ..m
        }),
    decreases results.len(),
{
    if results.len() > 0 {
        assert forall|k: int| 0 <= k < results.drop_last().len() implies (#[trigger] results.drop_last()[k]).0
            < m.files.len() by {
            assert(results.drop_last()[k] == results[k]);
        }
        lemma_preload_store_keeps(m, results.drop_last());
        assert(results.last() == results[results.len() - 1]);
    }
}

impl App {
    /// Consults the metadata cache for file `i`; returns the path to read
    /// when the metadata has to come from the file.
    pub fn load_exif(&mut self, i: usize) -> (to_read: Option<String>)
        requires
            old(self).wf(),
            i < old(self).files@.len(),
        ensures
            final(self).wf(),
            final(self).model() == exif_lookup_step(old(self).model(), i),
            match to_read {
                Some(p) => exif_must_read(old(self).files@[i as int], old(self).model().exif_cache) && p@
                    == old(self).files@[i as int].path@,
                None => !exif_must_read(old(self).files@[i as int], old(self).model().exif_cache),
            },
    {
        let ghost m = old(self).model();
        let must_read = self.files[i].load_exif_if_needed(&self.exif_cache);
        proof {
            assert(self.model() =~= exif_lookup_step(m, i));
        }
        if must_read {
            Some(self.files[i].path.clone())
        } else {
            None
        }
    }

    /// Stores the metadata read from file `i` (`None` when it has none).
    pub fn exif_read(&mut self, i: usize, data: Option<ExifData>)
        requires
            old(self).wf(),
            i < old(self).files@.len(),
        ensures
            final(self).wf(),
            final(self).model() == exif_store_step(old(self).model(), i, data),
    {
        let ghost m = old(self).model();
        self.files[i].store_exif(&mut self.exif_cache, data);
        proof {
            assert(self.model() =~= exif_store_step(m, i, data));
        }
    }

    /// The files among the `count` entries from `start` on whose metadata a
    /// preload reads: those that want it and are not cached yet.
    pub fn preload_exif_batch(&self, start_idx: usize, count: usize) -> (targets: Vec<(usize, String)>)
        requires
            self.wf(),
            start_idx + count <= usize::MAX,
        ensures
            targets@.len() == preload_targets(
                self.files@,
                self.model().exif_cache,
                start_idx as int,
                if start_idx + count < self.files@.len() {
                    start_idx + count
                } else {
                    self.files@.len() as int
                },
            ).len(),
            forall|k: int|
                0 <= k < targets@.len() ==> (#[trigger] targets@[k]).0 == preload_targets(
                    self.files@,
                    self.model().exif_cache,
                    start_idx as int,
                    if start_idx + count < self.files@.len() {
                        start_idx + count
                    } else {
                        self.files@.len() as int
                    },
                )[k].0 && targets@[k].1@ == preload_targets(
                    self.files@,
                    self.model().exif_cache,
                    start_idx as int,
                    if start_idx + count < self.files@.len() {
                        start_idx + count
                    } else {
                        self.files@.len() as int
                    },
                )[k].1,
    {
        let sum = start_idx + count;
        let end_idx = if sum < self.files.len() {
            sum
        } else {
            self.files.len()
        };
        let ghost cache = self.model().exif_cache;
        let mut targets: Vec<(usize, String)> = Vec::new();
        if start_idx >= end_idx {
            proof {
                assert(preload_targets(self.files@, cache, start_idx as int, end_idx as int) =~= Seq::empty());
            }
            return targets;
        }
        let mut i: usize = start_idx;
        while i < end_idx
            invariant
                start_idx <= i <= end_idx,
                end_idx <= self.files@.len(),
                self.wf(),
                cache == self.model().exif_cache,
                targets@.len() == preload_targets(self.files@, cache, start_idx as int, i as int).len(),
                forall|k: int|
                    0 <= k < targets@.len() ==> (#[trigger] targets@[k]).0 == preload_targets(
                        self.files@,
                        cache,
                        start_idx as int,
                        i as int,
                    )[k].0 && targets@[k].1@ == preload_targets(self.files@, cache, start_idx as int, i as int)[k].1,
            decreases end_idx - i,
        {
            let f = &self.files[i];
            if f.needs_exif && f.exif_data.is_none() && !self.exif_cache.contains_key(&f.path) {
                targets.push((i, f.path.clone()));
            }
            i = i + 1;
        }
        targets
    }

    /// Stores the metadata a preload read, in order; entries without
    /// metadata change nothing.
    pub fn apply_preloaded(&mut self, results: Vec<(usize, Option<ExifData>)>)
        requires
            old(self).wf(),
            forall|k: int| 0 <= k < results@.len() ==> (#[trigger] results@[k]).0 < old(self).files@.len(),
        ensures
            final(self).wf(),
            final(self).model() == preload_store(old(self).model(), results@),
    {
        let ghost m = old(self).model();
        let mut k: usize = 0;
        while k < results.len()
            invariant
                k <= results@.len(),
                model_wf(m),
                forall|j: int| 0 <= j < results@.len() ==> (#[trigger] results@[j]).0 < m.files.len(),
                self.wf(),
                self.model() == preload_store(m, results@.take(k as int)),
            decreases results.len() - k,
        {
            proof {
                assert(results@.take(k + 1).drop_last() =~= results@.take(k as int));
                assert(results@.take(k + 1).last() == results@[k as int]);
                assert forall|j: int| 0 <= j < results@.take(k as int).len() implies (#[trigger] results@.take(
                    k as int,
                )[j]).0 < m.files.len() by {
                    assert(results@.take(k as int)[j] == results@[j]);
                }
                lemma_preload_store_keeps(m, results@.take(k as int));
            }
            let idx = results[k].0;
            match &results[k].1 {
                Some(d) => {
                    self.exif_read(idx, Some(d.copied()));
                },
                None => {},
            }
            k = k + 1;
        }
        proof {
            assert(results@.take(results@.len() as int) =~= results@);
        }
    }
}

} // verus!
