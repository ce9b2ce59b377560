//! The file list of a directory: which entries are shown, the order the
//! directory is read in, and how the interface takes a fresh listing in.
use vstd::prelude::*;
use crate::cache::{cache_metadata, cached_lookup};
use crate::control::supported_image;
use crate::models::{copy_opt_string, lightweight_entry, CachedImageInfo, ImageFile};
use crate::paths::{path_key_of, path_parent, parent_of};
use crate::state::{max_files, App, AppModel, Effect};
use crate::text::chars_of;

verus! {

/// One entry of a directory as it was read from disk, with the image
/// metadata found for it (`None` for directories).
pub struct ListingEntry {
    pub path: String,
    pub is_dir: bool,
    pub file_len: u64,
    pub info: Option<CachedImageInfo>,
}

/// Whether the browser shows an entry: directories and supported images.
pub open spec fn shown_entry(e: ListingEntry) -> bool {
    e.is_dir || supported_image(e.path@)
}

/// The entries the browser shows, in the order they were read.
pub open spec fn shown_entries(es: Seq<ListingEntry>) -> Seq<ListingEntry>
    decreases es.len(),
{
    if es.len() == 0 {
        Seq::empty()
    } else {
        let r = shown_entries(es.drop_last());
        if shown_entry(es.last()) {
            r.push(es.last())
        } else {
            r
        }
    }
}

/// The metadata cache after a listing: the metadata of every shown image
/// is recorded under its path, in the order of the entries.
pub open spec fn cache_after_listing(
    cache: Map<Seq<char>, CachedImageInfo>,
    es: Seq<ListingEntry>,
) -> Map<Seq<char>, CachedImageInfo>
    decreases es.len(),
{
    if es.len() == 0 {
        cache
    } else {
        let r = cache_after_listing(cache, es.drop_last());
        let e = es.last();
        if shown_entry(e) && !e.is_dir && e.info is Some {
            r.insert(path_key_of(e.path@), e.info.unwrap())
        } else {
            r
        }
    }
}

/// The dimensions an entry of the list gets: those found for an image.
pub open spec fn entry_dimensions(e: ListingEntry) -> Option<(u32, u32)> {
    if !e.is_dir && e.info is Some {
        e.info.unwrap().dimensions
    } else {
        None
    }
}

/// The colour type an entry of the list gets: the one found for an image.
pub open spec fn entry_color_type(e: ListingEntry) -> Option<String> {
    if !e.is_dir && e.info is Some {
        e.info.unwrap().color_type
    } else {
        None
    }
}

/// `f` is the list entry built for the directory entry `e`.
pub open spec fn listed_from(f: ImageFile, e: ListingEntry) -> bool {
    &&& lightweight_entry(f, e.path@, e.is_dir, e.file_len)
    &&& f.dimensions == entry_dimensions(e)
    &&& f.color_type == entry_color_type(e)
}

/// `f` is the `..` link to the parent directory.
pub open spec fn parent_entry(f: ImageFile) -> bool {
    &&& f.path@ == ".."@
    &&& f.name@ == ".."@
    &&& f.is_dir
    &&& f.is_parent
    &&& f.size == 0
    &&& f.dimensions is None
    &&& f.color_type is None
    &&& !f.needs_exif
    &&& f.settings.is_default()
    &&& !f.queued
    &&& !f.selected
    &&& f.exif_data is None
}

/// The file list for a directory's entries: the parent link first when
/// the directory has a parent, then the shown entries in order.
pub open spec fn listing_files(files: Seq<ImageFile>, es: Seq<ListingEntry>, with_parent: bool) -> bool {
    let shown = shown_entries(es);
    let off: int = if with_parent {
        1
    } else {
        0
    };
    &&& files.len() == shown.len() + off
    &&& with_parent ==> parent_entry(files[0])
    &&& forall|j: int| 0 <= j < shown.len() ==> listed_from(files[j + off], #[trigger] shown[j])
}

proof fn lemma_shown_len(es: Seq<ListingEntry>)
    ensures
        shown_entries(es).len() <= es.len(),
    decreases es.len(),
{
    if es.len() > 0 {
        lemma_shown_len(es.drop_last());
    }
}

/// Whether the browser shows an entry with this path.
pub fn keep_in_listing(path: &str, is_dir: bool) -> (b: bool)
    ensures
        b == (is_dir || supported_image(path@)),
{
    is_dir || App::is_supported_image(path)
}

/// How two directory entries are ordered in the list.
#[derive(Clone, Copy, Debug, PartialEq, Eq, Structural)]
pub enum EntryOrder {
    Before,
    Same,
    After,
}

/// Character-by-character order of two names (the order of their UTF-8
/// bytes): a proper prefix comes first.
pub open spec fn name_order(a: Seq<char>, b: Seq<char>) -> EntryOrder
    decreases a.len(),
{
    if a.len() == 0 {
        if b.len() == 0 {
            EntryOrder::Same
        } else {
            EntryOrder::Before
        }
    } else if b.len() == 0 {
        EntryOrder::After
    } else if a[0] < b[0] {
        EntryOrder::Before
    } else if b[0] < a[0] {
        EntryOrder::After
    } else {
        name_order(a.drop_first(), b.drop_first())
    }
}

/// The list order: directories before files, then by name.
pub open spec fn listing_order(a_is_dir: bool, a_name: Seq<char>, b_is_dir: bool, b_name: Seq<char>) -> EntryOrder {
    if a_is_dir != b_is_dir {
        if a_is_dir {
            EntryOrder::Before
        } else {
            EntryOrder::After
        }
    } else {
        name_order(a_name, b_name)
    }
}

/// Where entry `a` goes relative to entry `b` when a directory is read.
pub fn entry_order(a_is_dir: bool, a_name: &str, b_is_dir: bool, b_name: &str) -> (o: EntryOrder)
    ensures
        o == listing_order(a_is_dir, a_name@, b_is_dir, b_name@),
{
    if a_is_dir != b_is_dir {
        return if a_is_dir {
            EntryOrder::Before
        } else {
            EntryOrder::After
        };
    }
    let a = chars_of(a_name);
    let b = chars_of(b_name);
    let mut i: usize = 0;
    proof {
        assert(a@.skip(0) =~= a@);
        assert(b@.skip(0) =~= b@);
    }
    while i < a.len() && i < b.len()
        invariant
            a_is_dir == b_is_dir,
            i <= a.len(),
            i <= b.len(),
            a@ == a_name@,
            b@ == b_name@,
            name_order(a@, b@) == name_order(a@.skip(i as int), b@.skip(i as int)),
        decreases a.len() - i,
    {
        proof {
            assert(a@.skip(i as int)[0] == a@[i as int]);
            assert(b@.skip(i as int)[0] == b@[i as int]);
        }
        if a[i] < b[i] {
            return EntryOrder::Before;
        }
        if b[i] < a[i] {
            return EntryOrder::After;
        }
        proof {
            assert(a@.skip(i as int).drop_first() =~= a@.skip(i + 1));
            assert(b@.skip(i as int).drop_first() =~= b@.skip(i + 1));
        }
        i = i + 1;
    }
    if i < a.len() {
        EntryOrder::After
    } else if i < b.len() {
        EntryOrder::Before
    } else {
        EntryOrder::Same
    }
}

/// The name order is antisymmetric and only equal names are the same.
proof fn lemma_name_order_flip(a: Seq<char>, b: Seq<char>)
    ensures
        (name_order(a, b) == EntryOrder::Before) <==> (name_order(b, a) == EntryOrder::After),
        (name_order(a, b) == EntryOrder::Same) <==> a == b,
    decreases a.len(),
{
    if a.len() > 0 && b.len() > 0 && a[0] == b[0] {
        lemma_name_order_flip(a.drop_first(), b.drop_first());
        if a.drop_first() == b.drop_first() {
            assert(a =~= seq![a[0]] + a.drop_first());
            assert(b =~= seq![b[0]] + b.drop_first());
        }
    }
    if a.len() == 0 && b.len() == 0 {
        assert(a =~= b);
    }
}

proof fn lemma_name_order_chain(a: Seq<char>, b: Seq<char>, c: Seq<char>)
    requires
        name_order(a, b) == EntryOrder::Before,
        name_order(b, c) == EntryOrder::Before,
    ensures
        name_order(a, c) == EntryOrder::Before,
    decreases a.len(),
{
    if a.len() > 0 && b.len() > 0 && c.len() > 0 && a[0] == b[0] && b[0] == c[0] {
        lemma_name_order_chain(a.drop_first(), b.drop_first(), c.drop_first());
    }
}

/// The list order is a total order: swapping two entries swaps `Before` and
/// `After`, only entries of the same kind and name are `Same`, and `Before`
/// chains.
pub proof fn law_listing_order_total(
    a_is_dir: bool,
    a_name: Seq<char>,
    b_is_dir: bool,
    b_name: Seq<char>,
    c_is_dir: bool,
    c_name: Seq<char>,
)
    ensures
        (listing_order(a_is_dir, a_name, b_is_dir, b_name) == EntryOrder::Before) <==> (listing_order(
            b_is_dir,
            b_name,
            a_is_dir,
            a_name,
        ) == EntryOrder::After),
        (listing_order(a_is_dir, a_name, b_is_dir, b_name) == EntryOrder::Same) <==> (a_is_dir
            == b_is_dir && a_name == b_name),
        listing_order(a_is_dir, a_name, b_is_dir, b_name) == EntryOrder::Before && listing_order(
            b_is_dir,
            b_name,
            c_is_dir,
            c_name,
        ) == EntryOrder::Before ==> listing_order(a_is_dir, a_name, c_is_dir, c_name)
            == EntryOrder::Before,
{
    lemma_name_order_flip(a_name, b_name);
    if listing_order(a_is_dir, a_name, b_is_dir, b_name) == EntryOrder::Before && listing_order(
        b_is_dir,
        b_name,
        c_is_dir,
        c_name,
    ) == EntryOrder::Before {
        if a_is_dir == b_is_dir && b_is_dir == c_is_dir {
            lemma_name_order_chain(a_name, b_name, c_name);
        }
    }
}

/// Once a directory has been listed, the metadata found for the last of its
/// images is what the cache answers for that image's path as long as the
/// file keeps the modification time it was read with.
pub proof fn law_listing_feeds_cache(
    cache: Map<Seq<char>, CachedImageInfo>,
    es: Seq<ListingEntry>,
    mtime: u64,
)
    requires
        es.len() > 0,
        shown_entry(es.last()),
        !es.last().is_dir,
        es.last().info is Some,
    ensures
        cached_lookup(cache_after_listing(cache, es), es.last().path@, mtime) == if mtime != 0 && mtime
            == es.last().info.unwrap().file_mtime {
            es.last().info
        } else {
            None
        },
{
}

impl App {
    /// Takes in the entries read from the current directory: the list is
    /// rebuilt from the shown entries (after the parent link when the
    /// directory has a parent), the metadata of the images is cached, the
    /// queue is emptied and the first entry selected; its camera metadata
    /// is then asked for.
    pub fn load_directory(&mut self, entries: Vec<ListingEntry>) -> (eff: Vec<Effect>)
        requires
            old(self).wf(),
            entries@.len() < max_files(),
        ensures
            final(self).wf(),
            listing_files(final(self).files@, entries@, parent_of(old(self).current_dir@) is Some),
            final(self).model() == (AppModel {
                files: final(self).files@,
                selected_index: if final(self).files@.len() > 0 {
                    Some(0usize)
                } else {
                    None
                },
                queue: Seq::empty(),
                scroll_offset: 0,
                metadata_cache: cache_after_listing(old(self).model().metadata_cache, entries@),
                ..old(self).model()
            }),
            eff@ == if final(self).files@.len() > 0 {
                seq![Effect::LoadExif(0)]
            } else {
                Seq::<Effect>::empty()
            },
    {
        let ghost m = old(self).model();
        let with_parent = path_parent(self.current_dir.as_str()).is_some();
        let ghost off: int = if with_parent {
            1
        } else {
            0
        };
        let mut files: Vec<ImageFile> = Vec::new();
        if with_parent {
            files.push(ImageFile::new_parent());
        }
        let mut i: usize = 0;
        while i < entries.len()
            invariant
                i <= entries.len(),
                entries@.len() < max_files(),
                off == (if with_parent {
                    1int
                } else {
                    0
                }),
                files@.len() == shown_entries(entries@.take(i as int)).len() + off,
                with_parent ==> parent_entry(files@[0]),
                forall|j: int|
                    0 <= j < shown_entries(entries@.take(i as int)).len() ==> listed_from(
                        files@[j + off],
                        #[trigger] shown_entries(entries@.take(i as int))[j],
                    ),
                self.metadata_cache.inv(),
                self.exif_cache.inv(),
                self.metadata_cache.view() == cache_after_listing(m.metadata_cache, entries@.take(i as int)),
                self.model() == (AppModel { metadata_cache: self.metadata_cache.view(), ..m }),
            decreases entries.len() - i,
        {
            let ghost before = entries@.take(i as int);
            proof {
                assert(entries@.take(i + 1).drop_last() =~= before);
                assert(entries@.take(i + 1).last() == entries@[i as int]);
                lemma_shown_len(before);
            }
            let e = &entries[i];
            if e.is_dir || App::is_supported_image(&e.path) {
                let mut dims: Option<(u32, u32)> = None;
                let mut color: Option<String> = None;
                if !e.is_dir {
                    match &e.info {
                        Some(info) => {
                            cache_metadata(&mut self.metadata_cache, e.path.clone(), info.copied());
                            dims = info.dimensions;
                            color = copy_opt_string(&info.color_type);
                        },
                        None => {},
                    }
                }
                let f = ImageFile::new(e.path.clone(), e.is_dir, e.file_len, dims, color);
                files.push(f);
            }
            i = i + 1;
            proof {
                let now = shown_entries(entries@.take(i as int));
                assert forall|j: int| 0 <= j < now.len() implies listed_from(
                    files@[j + off],
                    #[trigger] now[j],
                ) by {
                    if j < shown_entries(before).len() {
                        assert(now[j] == shown_entries(before)[j]);
                    }
                }
                assert(self.model() =~= (AppModel { metadata_cache: self.metadata_cache.view(), ..m }));
            }
        }
        proof {
            assert(entries@.take(entries@.len() as int) =~= entries@);
            lemma_shown_len(entries@);
        }
        let nonempty = files.len() > 0;
        self.files = files;
        self.queue = Vec::new();
        self.scroll_offset = 0;
        self.selected_index = if nonempty {
            Some(0)
        } else {
            None
        };
        let mut eff: Vec<Effect> = Vec::new();
        if nonempty {
            eff.push(Effect::LoadExif(0));
        }
        proof {
            assert(eff@ =~= if self.files@.len() > 0 {
                seq![Effect::LoadExif(0)]
            } else {
                Seq::<Effect>::empty()
            });
            assert(self.model() =~= (AppModel {
                files: self.files@,
                selected_index: if self.files@.len() > 0 {
                    Some(0usize)
                } else {
                    None
                },
                queue: Seq::empty(),
                scroll_offset: 0,
                metadata_cache: cache_after_listing(m.metadata_cache, entries@),
                ..m
            }));
        }
        eff
    }
}

} // verus!
