//! Unpacking an archive into a plan for the store: the content objects to
//! keep, the index of the package, and the file that holds the index.
//!
//! The archive itself is read by the `tar` crate and the index is written
//! out by `serde_json`; what is done with the entries is proved here.

use vstd::prelude::*;
use vstd::string::*;
use vstd::utf8::encode_utf8;
use crate::content_path::{content_path, content_path_from_hex, FileType};
use crate::entry_path::{entry_key, index_key};
use crate::error::{ArchiveError, FetchError, FetchErrorView};
use crate::index::{
    has_key,
    index_json,
    keys_unique,
    lemma_pairs_insert,
    line_of,
    pairs_insert,
    PackageIndex,
};
use crate::integrity::{hex_digest, hex_digest_of, HashAlgorithm};

verus! {

/// An entry of an archive as it was read: the path recorded for it, the size
/// its header announces, whether it is a regular file, its permission bits
/// where the header holds readable ones, and the bytes of its body.
#[derive(Clone, Debug, PartialEq, Eq)]
pub struct RawEntry {
    pub path: Vec<u8>,
    pub size: u64,
    pub regular: bool,
    pub mode: Option<u32>,
    pub contents: Vec<u8>,
}

/// A [`RawEntry`] as a mathematical value.
pub struct RawEntryView {
    pub path: Seq<u8>,
    pub size: nat,
    pub regular: bool,
    pub mode: Option<u32>,
    pub contents: Seq<u8>,
}

impl View for RawEntry {
    type V = RawEntryView;

    open spec fn view(&self) -> RawEntryView {
        RawEntryView {
            path: self.path@,
            size: self.size as nat,
            regular: self.regular,
            mode: self.mode,
            contents: self.contents@,
        }
    }
}

/// The entries of a listing as mathematical values.
pub open spec fn listing_view(listing: Seq<RawEntry>) -> Seq<RawEntryView> {
    listing.map_values(|e: RawEntry| e@)
}

/// The entries of the archive `data`, in order, if the archive can be read
/// to its end.
pub uninterp spec fn tar_listing(data: Seq<u8>) -> Option<Seq<RawEntryView>>;

/// Walks the archive with `tar::Archive::entries` and reads each entry
/// whole: its path from `tar::Entry::path_bytes`, its size from
/// `tar::Entry::size`, its kind and permission bits from its
/// `tar::Header`, its body through `std::io::Read`. An archive is read
/// front to back through one shared reader, each body before the next
/// header, so the walk is one step. Trusted: the entries that come back
/// are the named ones, and none come back exactly where `tar` reports a
/// failure on the way.
#[verifier::external_body]
fn read_archive(data: Vec<u8>) -> (listing: Option<Vec<RawEntry>>)
    ensures
        match listing {
            Some(entries) => tar_listing(data@) == Some(listing_view(entries@)),
            None => tar_listing(data@) is None,
        },
{
    let mut archive = tar::Archive::new(std::io::Cursor::new(data));
    let mut listing = Vec::new();
    for entry in archive.entries().ok()? {
        let mut entry = entry.ok()?;
        let mut contents = Vec::new();
        std::io::Read::read_to_end(&mut entry, &mut contents).ok()?;
        let path = entry.path_bytes().into_owned();
        let header = entry.header();
        let (regular, mode) = (header.entry_type().is_file(), header.mode().ok());
        listing.push(RawEntry { path, size: entry.size(), regular, mode, contents });
    }
    Some(listing)
}

/// An object of the store: a store path and the bytes kept there.
#[derive(Clone, Debug, PartialEq, Eq)]
pub struct ContentObject {
    pub path: String,
    pub contents: Vec<u8>,
}

/// A [`ContentObject`] as a mathematical value.
pub struct ObjectView {
    pub path: Seq<char>,
    pub contents: Seq<u8>,
}

impl View for ContentObject {
    type V = ObjectView;

    open spec fn view(&self) -> ObjectView {
        ObjectView { path: self.path@, contents: self.contents@ }
    }
}

/// The objects of a list as mathematical values.
pub open spec fn objects_view(objects: Seq<ContentObject>) -> Seq<ObjectView> {
    objects.map_values(|o: ContentObject| o@)
}

/// The permission bits record that somebody may execute the file.
pub open spec fn is_executable(mode: Option<u32>) -> bool {
    mode matches Some(bits) && bits & 0o111 != 0
}

/// The kind under which the body of a file entry is stored.
pub open spec fn entry_kind(entry: RawEntryView) -> FileType {
    if is_executable(entry.mode) {
        FileType::Exec
    } else {
        FileType::NonExec
    }
}

/// The object that the body of a file entry becomes: addressed by the
/// SHA-512 digest of the body and by the entry's kind.
pub open spec fn entry_object(entry: RawEntryView) -> ObjectView {
    ObjectView {
        path: content_path(entry_kind(entry), hex_digest(HashAlgorithm::Sha512, entry.contents)),
        contents: entry.contents,
    }
}

/// What is wrong with a file entry, if anything.
pub open spec fn entry_failure(entry: RawEntryView) -> Option<ArchiveError> {
    if entry.contents.len() != entry.size {
        Some(ArchiveError::Truncated)
    } else if index_key(entry.path) is None {
        Some(ArchiveError::PathNotUtf8)
    } else {
        None
    }
}

/// What unpacking has gathered: the lines of the index, and the objects to
/// keep, one for each file entry in the order of the archive.
pub struct Unpacked {
    pub lines: Seq<(Seq<char>, Seq<char>)>,
    pub objects: Seq<ObjectView>,
}

/// What one entry adds to what was gathered before it. An entry that is no
/// regular file adds nothing; a file entry adds its object and sets its key
/// in the index, unless something is wrong with it.
pub open spec fn unpack_entry(so_far: Unpacked, entry: RawEntryView) -> Result<
    Unpacked,
    ArchiveError,
> {
    if !entry.regular {
        Ok(so_far)
    } else if entry_failure(entry) is Some {
        Err(entry_failure(entry)->0)
    } else {
        let object = entry_object(entry);
        Ok(
            Unpacked {
                lines: pairs_insert(so_far.lines, index_key(entry.path)->0, object.path),
                objects: so_far.objects.push(object),
            },
        )
    }
}

/// What unpacking the entries of a listing gathers: each entry in turn adds
/// to what the entries before it gave, and the first failure ends it.
pub open spec fn unpacked(listing: Seq<RawEntryView>) -> Result<Unpacked, ArchiveError>
    decreases listing.len(),
{
    if listing.len() == 0 {
        Ok(Unpacked { lines: Seq::empty(), objects: Seq::empty() })
    } else {
        match unpacked(listing.drop_last()) {
            Ok(so_far) => unpack_entry(so_far, listing.last()),
            Err(failure) => Err(failure),
        }
    }
}

/// A failure among the first entries of a listing is the failure of the
/// whole listing.
pub proof fn lemma_unpacked_failure(listing: Seq<RawEntryView>, n: int)
    requires
        0 <= n <= listing.len(),
        unpacked(listing.take(n)) is Err,
    ensures
        unpacked(listing) == unpacked(listing.take(n)),
    decreases listing.len() - n,
{
    if n < listing.len() {
        assert(listing.take(n + 1).drop_last() =~= listing.take(n));
        lemma_unpacked_failure(listing, n + 1);
    } else {
        assert(listing.take(n) =~= listing);
    }
}

/// One of the objects is kept at `path`.
pub open spec fn names_object(objects: Seq<ObjectView>, path: Seq<char>) -> bool {
    exists|j: int| 0 <= j < objects.len() && (#[trigger] objects[j]).path == path
}

/// The index of an unpacked archive has one line for each key, and every
/// line of it stands for the path of one of the objects.
pub proof fn lemma_lines_name_objects(listing: Seq<RawEntryView>)
    requires
        unpacked(listing) is Ok,
    ensures
        keys_unique(unpacked(listing)->Ok_0.lines),
        forall|i: int|
            0 <= i < unpacked(listing)->Ok_0.lines.len() ==> names_object(
                unpacked(listing)->Ok_0.objects,
                (#[trigger] unpacked(listing)->Ok_0.lines[i]).1,
            ),
    decreases listing.len(),
{
    if listing.len() > 0 {
        let before = unpacked(listing.drop_last())->Ok_0;
        let after = unpacked(listing)->Ok_0;
        let entry = listing.last();
        lemma_lines_name_objects(listing.drop_last());
        if entry.regular {
            let key = index_key(entry.path)->0;
            let object = entry_object(entry);
            lemma_pairs_insert(before.lines, key, object.path);
            let at = if has_key(before.lines, key) {
                line_of(before.lines, key)
            } else {
                before.lines.len() as int
            };
            assert(after.objects[before.objects.len() as int] == object);
            assert forall|i: int| 0 <= i < after.lines.len() implies names_object(
                after.objects,
                (#[trigger] after.lines[i]).1,
            ) by {
                if i == at {
                    assert(after.lines[i].1 == object.path);
                } else {
                    assert(after.lines[i] == before.lines[i]);
                    assert(names_object(before.objects, before.lines[i].1));
                    let j = choose|j: int|
                        0 <= j < before.objects.len() && (#[trigger] before.objects[j]).path
                            == before.lines[i].1;
                    assert(after.objects[j] == before.objects[j]);
                }
            }
        }
    }
}

/// Tells whether the permission bits record that somebody may execute the
/// file.
pub fn has_exec_bit(mode: Option<u32>) -> (r: bool)
    ensures
        r == is_executable(mode),
{
    match mode {
        Some(bits) => bits & 0o111 != 0,
        None => false,
    }
}

/// Unpacks the entries of an archive that was read: gathers the objects to
/// keep and the index of the package.
pub fn unpack_entries(listing: Vec<RawEntry>) -> (r: Result<
    (PackageIndex, Vec<ContentObject>),
    FetchError,
>)
    ensures
        match r {
            Ok((index, objects)) => index.wf() && unpacked(listing_view(listing@)) == Ok::<
                Unpacked,
                ArchiveError,
            >(Unpacked { lines: index.pairs(), objects: objects_view(objects@) }),
            Err(e) => unpacked(listing_view(listing@)) matches Err(failure) && e@
                == FetchErrorView::Archive(failure),
        },
{
    let mut index = PackageIndex::new();
    let mut objects: Vec<ContentObject> = Vec::new();
    let ghost all = listing_view(listing@);
    assert(all.take(0) =~= Seq::<RawEntryView>::empty());
    assert(objects_view(objects@) =~= Seq::<ObjectView>::empty());
    for entry in it: listing
        invariant
            all == listing_view(listing@),
            index.wf(),
            unpacked(all.take(it.index() as int)) == Ok::<Unpacked, ArchiveError>(
                Unpacked { lines: index.pairs(), objects: objects_view(objects@) },
            ),
    {
        let ghost n = it.index() as int;
        proof {
            assert(all.take(n + 1).drop_last() =~= all.take(n));
            assert(all.take(n + 1).last() == entry@);
        }
        if entry.regular {
            let RawEntry { path, size, regular: _, mode, contents } = entry;
            if contents.len() as u64 != size {
                proof {
                    lemma_unpacked_failure(all, n + 1);
                }
                return Err(FetchError::Archive(ArchiveError::Truncated));
            }
            let key = match entry_key(path.as_slice()) {
                Some(key) => key,
                None => {
                    proof {
                        lemma_unpacked_failure(all, n + 1);
                    }
                    return Err(FetchError::Archive(ArchiveError::PathNotUtf8));
                },
            };
            let kind = if has_exec_bit(mode) {
                FileType::Exec
            } else {
                FileType::NonExec
            };
            let hex = hex_digest_of(HashAlgorithm::Sha512, contents.as_slice());
            let store_path = content_path_from_hex(kind, hex.as_str());
            index.insert(key, store_path.clone());
            let ghost before = objects@;
            objects.push(ContentObject { path: store_path, contents });
            assert(objects_view(objects@) =~= objects_view(before).push(entry_object(entry@)));
        }
    }
    proof {
        assert(all.take(all.len() as int) =~= all);
    }
    Ok((index, objects))
}

/// What is to be written to the store for one package: the content objects
/// in the order of the archive, each to be kept unless the store has it
/// already, and the file that holds the index, to be written in any case.
#[derive(Clone, Debug, PartialEq, Eq)]
pub struct StorePlan {
    pub index: PackageIndex,
    pub objects: Vec<ContentObject>,
    pub index_file: ContentObject,
}

/// A [`StorePlan`] as a mathematical value.
pub struct PlanView {
    pub lines: Seq<(Seq<char>, Seq<char>)>,
    pub objects: Seq<ObjectView>,
    pub index_file: ObjectView,
}

impl View for StorePlan {
    type V = PlanView;

    open spec fn view(&self) -> PlanView {
        PlanView {
            lines: self.index.pairs(),
            objects: objects_view(self.objects@),
            index_file: self.index_file@,
        }
    }
}

/// The result of a stage that yields a plan, as a mathematical value.
pub open spec fn plan_result_view(r: Result<StorePlan, FetchError>) -> Result<
    PlanView,
    FetchErrorView,
> {
    match r {
        Ok(plan) => Ok(plan@),
        Err(e) => Err(e@),
    }
}

/// What is reported where the index cannot be written out as text.
pub open spec fn unwritable_index() -> Seq<char> {
    "the package index cannot be written as JSON"@
}

/// The plan made of what was unpacked and of the text of the index file,
/// which is stored at `index_location` as UTF-8.
pub open spec fn sealed(index_location: Seq<char>, gathered: Unpacked, json: Option<Seq<char>>)
    -> Result<PlanView, FetchErrorView> {
    match json {
        Some(text) => Ok(
            PlanView {
                lines: gathered.lines,
                objects: gathered.objects,
                index_file: ObjectView { path: index_location, contents: encode_utf8(text) },
            },
        ),
        None => Err(FetchErrorView::Io(unwritable_index())),
    }
}

/// The plan for the archive `data`, whose index is to be stored at
/// `index_location`.
pub open spec fn extracted(index_location: Seq<char>, data: Seq<u8>) -> Result<
    PlanView,
    FetchErrorView,
> {
    match tar_listing(data) {
        None => Err(FetchErrorView::Archive(ArchiveError::Unreadable)),
        Some(listing) => match unpacked(listing) {
            Err(failure) => Err(FetchErrorView::Archive(failure)),
            Ok(gathered) => sealed(index_location, gathered, index_json(gathered.lines)),
        },
    }
}

/// Makes the plan of what was unpacked and of the text of the index file,
/// where there is one.
pub fn seal_plan(
    index_location: &str,
    index: PackageIndex,
    objects: Vec<ContentObject>,
    json: Option<String>,
) -> (r: Result<StorePlan, FetchError>)
    ensures
        plan_result_view(r) == sealed(
            index_location@,
            Unpacked { lines: index.pairs(), objects: objects_view(objects@) },
            json.deep_view(),
        ),
        r matches Ok(plan) ==> plan.index == index && plan.objects == objects,
{
    match json {
        Some(text) => {
            let contents: Vec<u8> = text.as_str().as_bytes_vec();
            Ok(
                StorePlan {
                    index,
                    objects,
                    index_file: ContentObject { path: index_location.to_owned(), contents },
                },
            )
        },
        None => Err(FetchError::Io(String::from_str("the package index cannot be written as JSON"))),
    }
}

/// Unpacks the archive `data` into a plan for the store. Every regular file
/// of the archive becomes a content object, addressed by the digest of its
/// bytes, and a line of the index, keyed by its path without the first
/// component; entries of any other kind are passed over. The index itself
/// is to be stored at `index_location`.
pub fn extract_tarball(index_location: &str, data: Vec<u8>) -> (r: Result<StorePlan, FetchError>)
    ensures
        plan_result_view(r) == extracted(index_location@, data@),
        r matches Ok(plan) ==> plan.index.wf(),
{
    let listing = match read_archive(data) {
        Some(listing) => listing,
        None => {
            return Err(FetchError::Archive(ArchiveError::Unreadable));
        },
    };
    let (index, objects) = match unpack_entries(listing) {
        Ok(gathered) => gathered,
        Err(e) => {
            return Err(e);
        },
    };
    let json = index.to_json();
    seal_plan(index_location, index, objects, json)
}

} // verus!
