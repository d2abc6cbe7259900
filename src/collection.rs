//! Collections: named groups of source images, one per directory under the
//! images root.
use vstd::prelude::*;

use crate::error::Error;
use crate::paths::{
    dir_part, file_name_of, has_thumbnail_name, is_file_path, is_thumbnail_name_spec, names_file,
    SLASH,
};

verus! {

/// A topic and the images that show it.
#[derive(Debug, Clone)]
pub struct Collection {
    /// The directory's name, shown to users as the topic.
    pub name: String,
    /// Paths of the source images, in listing order.
    pub images: Vec<Vec<u8>>,
}

/// What a collection is, as values.
pub struct CollectionView {
    pub name: Seq<char>,
    pub images: Seq<Seq<u8>>,
}

impl View for Collection {
    type V = CollectionView;

    open spec fn view(&self) -> CollectionView {
        CollectionView { name: self.name@, images: self.images.deep_view() }
    }
}

/// One entry of a directory listing.
pub struct FileEntry {
    pub path: Vec<u8>,
    /// Whether the entry is a regular file (following links).
    pub is_file: bool,
}

/// One entry of the images root, with the listing of its contents when it is a
/// directory.
pub struct RootEntry {
    pub path: Vec<u8>,
    /// The entry's name, or `None` where it is not valid UTF-8.
    pub name: Option<String>,
    pub is_dir: bool,
    /// The directory's entries; empty for anything but a directory.
    pub files: Vec<FileEntry>,
}

/// A listed file is a source image when it is a regular file and its name does
/// not mark a thumbnail.
pub open spec fn is_source_image(f: FileEntry) -> bool {
    &&& f.is_file
    &&& is_file_path(f.path@)
    &&& !is_thumbnail_name_spec(file_name_of(f.path@))
}

/// The source images of a directory listing, in listing order.
pub open spec fn source_images(files: Seq<FileEntry>) -> Seq<Seq<u8>>
    decreases files.len(),
{
    if files.len() == 0 {
        seq![]
    } else {
        let rest = source_images(files.drop_last());
        if is_source_image(files.last()) {
            rest.push(files.last().path@)
        } else {
            rest
        }
    }
}

/// The collections of a root listing: one for each directory with at least one
/// source image, in listing order. Fails with the path of the first such
/// directory whose name is not a string.
pub open spec fn scan_spec(entries: Seq<RootEntry>) -> Result<Seq<CollectionView>, Seq<u8>>
    decreases entries.len(),
{
    if entries.len() == 0 {
        Ok(seq![])
    } else {
        match scan_spec(entries.drop_last()) {
            Err(p) => Err(p),
            Ok(cs) => {
                let e = entries.last();
                let images = source_images(e.files@);
                if !e.is_dir || images.len() == 0 {
                    Ok(cs)
                } else {
                    match e.name {
                        None => Err(e.path@),
                        Some(n) => Ok(cs.push(CollectionView { name: n@, images })),
                    }
                }
            },
        }
    }
}

/// A registered collection has an image, and none of its images is a
/// thumbnail.
pub open spec fn is_registered(c: CollectionView) -> bool {
    &&& c.images.len() > 0
    &&& forall|i: int|
        0 <= i < c.images.len() ==> {
            &&& is_file_path(#[trigger] c.images[i])
            &&& !is_thumbnail_name_spec(file_name_of(c.images[i]))
        }
}

proof fn lemma_source_images_eligible(files: Seq<FileEntry>)
    ensures
        forall|i: int|
            0 <= i < source_images(files).len() ==> {
                &&& is_file_path(#[trigger] source_images(files)[i])
                &&& !is_thumbnail_name_spec(file_name_of(source_images(files)[i]))
            },
    decreases files.len(),
{
    if files.len() > 0 {
        lemma_source_images_eligible(files.drop_last());
        let rest = source_images(files.drop_last());
        assert forall|i: int| 0 <= i < source_images(files).len() implies {
            &&& is_file_path(#[trigger] source_images(files)[i])
            &&& !is_thumbnail_name_spec(file_name_of(source_images(files)[i]))
        } by {
            if i < rest.len() {
                assert(source_images(files)[i] == rest[i]);
            }
        }
    }
}

/// Every collection of a scan has an image and holds no thumbnail.
pub proof fn lemma_scan_excludes_thumbnails(entries: Seq<RootEntry>)
    ensures
        scan_spec(entries) is Ok ==> forall|i: int|
            0 <= i < scan_spec(entries)->Ok_0.len() ==> is_registered(
                #[trigger] scan_spec(entries)->Ok_0[i],
            ),
    decreases entries.len(),
{
    if entries.len() > 0 {
        lemma_scan_excludes_thumbnails(entries.drop_last());
        lemma_source_images_eligible(entries.last().files@);
    }
}

proof fn lemma_scan_err_persists(entries: Seq<RootEntry>, k: int)
    requires
        0 <= k <= entries.len(),
        scan_spec(entries.take(k)) is Err,
    ensures
        scan_spec(entries) == scan_spec(entries.take(k)),
    decreases entries.len(),
{
    if k == entries.len() {
        assert(entries.take(k) =~= entries);
    } else {
        assert(entries.drop_last().take(k) =~= entries.take(k));
        lemma_scan_err_persists(entries.drop_last(), k);
    }
}

/// No image belongs to two collections.
pub open spec fn collections_disjoint(cols: Seq<CollectionView>) -> bool {
    forall|a: int, b: int, p: Seq<u8>|
        0 <= a < cols.len() && 0 <= b < cols.len() && a != b && #[trigger] cols[a].images.contains(p)
            ==> !#[trigger] cols[b].images.contains(p)
}

/// A listing as a file system gives it: no two root entries share a path,
/// and each file listed under an entry is named `<entry path>/<name>`.
pub open spec fn is_consistent_listing(entries: Seq<RootEntry>) -> bool {
    &&& forall|i: int, j: int|
        0 <= i < entries.len() && 0 <= j < entries.len() && i != j ==> #[trigger] entries[i].path@
            != #[trigger] entries[j].path@
    &&& forall|i: int, k: int|
        0 <= i < entries.len() && 0 <= k < entries[i].files.len() ==> dir_part(
            #[trigger] entries[i].files@[k].path@,
        ) == entries[i].path@.push(SLASH)
}

/// The positions of the entries that become collections, in order.
pub open spec fn scan_dirs(entries: Seq<RootEntry>) -> Seq<int>
    decreases entries.len(),
{
    if entries.len() == 0 {
        seq![]
    } else {
        let rest = scan_dirs(entries.drop_last());
        let e = entries.last();
        if e.is_dir && source_images(e.files@).len() > 0 {
            rest.push(entries.len() - 1)
        } else {
            rest
        }
    }
}

proof fn lemma_source_images_dir(files: Seq<FileEntry>, d: Seq<u8>)
    requires
        forall|k: int| 0 <= k < files.len() ==> dir_part(#[trigger] files[k].path@) == d,
    ensures
        forall|m: int| 0 <= m < source_images(files).len() ==> dir_part(#[trigger] source_images(files)[m]) == d,
    decreases files.len(),
{
    if files.len() > 0 {
        let f0 = files.drop_last();
        assert forall|k: int| 0 <= k < f0.len() implies dir_part(#[trigger] f0[k].path@) == d by {
            assert(f0[k] == files[k]);
        }
        lemma_source_images_dir(f0, d);
        let rest = source_images(f0);
        assert forall|m: int| 0 <= m < source_images(files).len() implies dir_part(#[trigger] source_images(files)[m]) == d by {
            if m < rest.len() {
                assert(source_images(files)[m] == rest[m]);
            } else {
                assert(files.last() == files[files.len() - 1]);
            }
        }
    }
}

proof fn lemma_scan_dirs(entries: Seq<RootEntry>)
    requires
        is_consistent_listing(entries),
        scan_spec(entries) is Ok,
    ensures
        scan_dirs(entries).len() == scan_spec(entries)->Ok_0.len(),
        forall|k: int|
            0 <= k < scan_dirs(entries).len() ==> 0 <= #[trigger] scan_dirs(entries)[k] < entries.len(),
        forall|a: int, b: int|
            0 <= a < b < scan_dirs(entries).len() ==> scan_dirs(entries)[a] < scan_dirs(entries)[b],
        forall|k: int, m: int|
            0 <= k < scan_dirs(entries).len() && 0 <= m < scan_spec(entries)->Ok_0[k].images.len()
                ==> dir_part(#[trigger] scan_spec(entries)->Ok_0[k].images[m])
                == entries[scan_dirs(entries)[k]].path@.push(SLASH),
    decreases entries.len(),
{
    if entries.len() > 0 {
        let e0 = entries.drop_last();
        assert(is_consistent_listing(e0)) by {
            assert forall|i: int, j: int|
                0 <= i < e0.len() && 0 <= j < e0.len() && i != j implies #[trigger] e0[i].path@
                    != #[trigger] e0[j].path@ by {
                assert(e0[i] == entries[i] && e0[j] == entries[j]);
            }
            assert forall|i: int, k: int|
                0 <= i < e0.len() && 0 <= k < e0[i].files.len() implies dir_part(
                    #[trigger] e0[i].files@[k].path@,
                ) == e0[i].path@.push(SLASH) by {
                assert(e0[i] == entries[i]);
            }
        }
        assert(scan_spec(e0) is Ok);
        lemma_scan_dirs(e0);
        let n = entries.len() - 1;
        let e = entries.last();
        assert(e == entries[n]);
        if e.is_dir && source_images(e.files@).len() > 0 {
            assert forall|k: int| 0 <= k < e.files.len() implies dir_part(#[trigger] e.files@[k].path@)
                == e.path@.push(SLASH) by {
                assert(entries[n].files@[k] == e.files@[k]);
            }
            lemma_source_images_dir(e.files@, e.path@.push(SLASH));
        }
    }
}

/// Collections built from a consistent listing share no image: each holds
/// files of its own directory.
pub proof fn lemma_scan_disjoint(entries: Seq<RootEntry>)
    requires
        is_consistent_listing(entries),
        scan_spec(entries) is Ok,
    ensures
        collections_disjoint(scan_spec(entries)->Ok_0),
{
    lemma_scan_dirs(entries);
    let cs = scan_spec(entries)->Ok_0;
    let ds = scan_dirs(entries);
    assert forall|a: int, b: int, p: Seq<u8>|
        0 <= a < cs.len() && 0 <= b < cs.len() && a != b && #[trigger] cs[a].images.contains(p)
            implies !#[trigger] cs[b].images.contains(p) by {
        if cs[b].images.contains(p) {
            let ma = choose|m: int| 0 <= m < cs[a].images.len() && cs[a].images[m] == p;
            let mb = choose|m: int| 0 <= m < cs[b].images.len() && cs[b].images[m] == p;
            assert(dir_part(cs[a].images[ma]) == entries[ds[a]].path@.push(SLASH));
            assert(dir_part(cs[b].images[mb]) == entries[ds[b]].path@.push(SLASH));
            assert(ds[a] != ds[b]);
            let (pa, pb) = (entries[ds[a]].path@, entries[ds[b]].path@);
            assert(pa != pb);
            assert(pa.push(SLASH).drop_last() =~= pa);
            assert(pb.push(SLASH).drop_last() =~= pb);
        }
    }
}

/// A copy of a byte string.
pub fn copy_bytes(v: &Vec<u8>) -> (r: Vec<u8>)
    ensures
        r@ == v@,
{
    let mut r: Vec<u8> = Vec::new();
    let mut i: usize = 0;
    while i < v.len()
        invariant
            i <= v.len(),
            r@ == v@.take(i as int),
        decreases v.len() - i,
    {
        r.push(v[i]);
        assert(v@.take(i + 1) =~= v@.take(i as int).push(v@[i as int]));
        i = i + 1;
    }
    assert(v@.take(v.len() as int) =~= v@);
    r
}

/// The source images among a directory's entries.
fn collect_source_images(files: &Vec<FileEntry>) -> (r: Vec<Vec<u8>>)
    ensures
        r.deep_view() == source_images(files@),
{
    let mut r: Vec<Vec<u8>> = Vec::new();
    let mut i: usize = 0;
    assert(files@.take(0) =~= Seq::<FileEntry>::empty());
    assert(r.deep_view() =~= Seq::<Seq<u8>>::empty());
    while i < files.len()
        invariant
            i <= files.len(),
            r.deep_view() == source_images(files@.take(i as int)),
        decreases files.len() - i,
    {
        let f = &files[i];
        assert(files@.take(i + 1).drop_last() =~= files@.take(i as int));
        assert(files@.take(i + 1).last() == files@[i as int]);
        if f.is_file && names_file(&f.path) && !has_thumbnail_name(&f.path) {
            let p = copy_bytes(&f.path);
            let ghost before = r.deep_view();
            r.push(p);
            assert(r.deep_view() =~= before.push(p@)) by {
                assert(forall|j: int| 0 <= j < r.len() ==> #[trigger] r@[j].deep_view() == r@[j]@);
            }
        }
        i = i + 1;
    }
    assert(files@.take(files.len() as int) =~= files@);
    r
}

/// The views of a sequence of collections.
pub open spec fn views(cs: Seq<Collection>) -> Seq<CollectionView> {
    cs.map_values(|c: Collection| c@)
}

/// Builds the collections of the images root from its listing: one for each
/// directory that holds a source image, named after the directory.
///
/// Fails with `CollectionName` for the first such directory whose name is not
/// a string.
pub fn build_collections(entries: &Vec<RootEntry>) -> (r: Result<Vec<Collection>, Error>)
    ensures
        match r {
            Ok(cs) => scan_spec(entries@) == Ok::<Seq<CollectionView>, Seq<u8>>(views(cs@)),
            Err(e) => scan_spec(entries@) is Err && (e matches Error::CollectionName { path }
                && path@ == scan_spec(entries@)->Err_0),
        },
        r is Ok ==> forall|i: int| 0 <= i < r->Ok_0.len() ==> is_registered(#[trigger] r->Ok_0[i]@),
        r is Ok && is_consistent_listing(entries@) ==> collections_disjoint(views(r->Ok_0@)),
{
    let mut cs: Vec<Collection> = Vec::new();
    let mut i: usize = 0;
    assert(entries@.take(0) =~= Seq::<RootEntry>::empty());
    assert(views(cs@) =~= Seq::<CollectionView>::empty());
    while i < entries.len()
        invariant
            i <= entries.len(),
            scan_spec(entries@.take(i as int)) == Ok::<Seq<CollectionView>, Seq<u8>>(views(cs@)),
        decreases entries.len() - i,
    {
        let e = &entries[i];
        assert(entries@.take(i + 1).drop_last() =~= entries@.take(i as int));
        assert(entries@.take(i + 1).last() == entries@[i as int]);
        if e.is_dir {
            let images = collect_source_images(&e.files);
            if images.len() > 0 {
                match &e.name {
                    None => {
                        let path = copy_bytes(&e.path);
                        proof {
                            lemma_scan_err_persists(entries@, i + 1);
                        }
                        return Err(Error::CollectionName { path });
                    },
                    Some(n) => {
                        let c = Collection { name: n.clone(), images };
                        let ghost before = cs@;
                        cs.push(c);
                        assert(views(cs@) =~= views(before).push(c@));
                    },
                }
            }
        }
        i = i + 1;
    }
    assert(entries@.take(entries.len() as int) =~= entries@);
    proof {
        if is_consistent_listing(entries@) {
            lemma_scan_disjoint(entries@);
        }
        lemma_scan_excludes_thumbnails(entries@);
        assert forall|i: int| 0 <= i < cs.len() implies is_registered(#[trigger] cs@[i]@) by {
            assert(scan_spec(entries@)->Ok_0 == views(cs@));
            assert(views(cs@)[i] == cs@[i]@);
            assert(is_registered(scan_spec(entries@)->Ok_0[i]));
        }
    }
    Ok(cs)
}

} // verus!
