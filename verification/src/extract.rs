//! Unpacking a zip archive: from the entries that the archive holds to the directories and
//! files to create, none of them outside the destination.

use vstd::prelude::*;
use std::io::Read;
use crate::error::{UnwrapError, UnwrapErrorView};
use crate::format::WrappedFormat;
use crate::offsets::{offsets_fit, spec_offsets_fit};
use crate::path::{join, parent, spec_join, spec_parent, spec_stays_inside, stays_inside};
use crate::text::to_chars;

verus! {

/// One entry of a zip archive, read into memory.
#[derive(Clone, Debug, PartialEq, Eq)]
pub struct ZipEntry {
    /// The name as the archive records it. It may point anywhere.
    pub name: String,
    /// The name made into a relative path.
    pub path: String,
    /// The Unix permission bits, where the archive records any.
    pub mode: Option<u32>,
    /// The entry's content, decompressed.
    pub data: Vec<u8>,
}

/// A `ZipEntry` as plain values.
pub struct ZipEntryView {
    pub name: Seq<char>,
    pub path: Seq<char>,
    pub mode: Option<u32>,
    pub data: Seq<u8>,
}

impl View for ZipEntry {
    type V = ZipEntryView;

    open spec fn view(&self) -> ZipEntryView {
        ZipEntryView { name: self.name@, path: self.path@, mode: self.mode, data: self.data@ }
    }
}

/// One change to make in the file system.
#[derive(Clone, Debug, PartialEq, Eq)]
pub enum ExtractOp {
    /// Create the directory `path` and every missing directory above it.
    MakeDir { path: String },
    /// Create or replace the file `path` with `data`.
    WriteFile { path: String, data: Vec<u8> },
    /// Set the permission bits of `path`, where the platform has them.
    SetMode { path: String, mode: u32 },
}

/// An `ExtractOp` as plain values.
pub enum ExtractOpView {
    MakeDir { path: Seq<char> },
    WriteFile { path: Seq<char>, data: Seq<u8> },
    SetMode { path: Seq<char>, mode: u32 },
}

impl View for ExtractOp {
    type V = ExtractOpView;

    open spec fn view(&self) -> ExtractOpView {
        match *self {
            ExtractOp::MakeDir { path } => ExtractOpView::MakeDir { path: path@ },
            ExtractOp::WriteFile { path, data } => ExtractOpView::WriteFile {
                path: path@,
                data: data@,
            },
            ExtractOp::SetMode { path, mode } => ExtractOpView::SetMode { path: path@, mode },
        }
    }
}

impl ExtractOpView {
    /// The path that the operation touches.
    pub open spec fn path(self) -> Seq<char> {
        match self {
            ExtractOpView::MakeDir { path } => path,
            ExtractOpView::WriteFile { path, .. } => path,
            ExtractOpView::SetMode { path, .. } => path,
        }
    }
}

/// The operations of `ops` as plain values.
pub open spec fn ops_view(ops: Seq<ExtractOp>) -> Seq<ExtractOpView> {
    ops.map_values(|op: ExtractOp| op@)
}

/// An entry whose name ends in `/` stands for a directory.
pub open spec fn is_dir_entry(name: Seq<char>) -> bool {
    name.len() > 0 && name.last() == '/'
}

/// An entry can be placed if its path stays inside the destination and, for a file, is not
/// empty.
pub open spec fn is_placeable(entry: ZipEntryView) -> bool {
    &&& spec_stays_inside(entry.path)
    &&& is_dir_entry(entry.name) || entry.path.len() > 0
}

/// `path` is where the relative path `rel` leads from `dest`, or the directory that holds that
/// place, and `rel` stays inside.
pub open spec fn reaches(dest: Seq<char>, rel: Seq<char>, path: Seq<char>) -> bool {
    &&& spec_stays_inside(rel)
    &&& path == spec_join(dest, rel) || spec_parent(spec_join(dest, rel)) == Some(path)
}

/// `path` is within `dest`: some relative path that stays inside leads from `dest` to it, or
/// to something right below it.
pub open spec fn is_within(dest: Seq<char>, path: Seq<char>) -> bool {
    exists|rel: Seq<char>| #[trigger] reaches(dest, rel, path)
}

/// Every operation of `ops` touches a path within `dest`.
pub open spec fn all_within(dest: Seq<char>, ops: Seq<ExtractOpView>) -> bool {
    forall|k: int| 0 <= k < ops.len() ==> is_within(dest, #[trigger] ops[k].path())
}

/// What placing `entry` below `dest` takes: a directory entry becomes its directory; a file
/// entry gets the directory above it made first, then its content; either has its permission
/// bits set last, if the archive records them.
pub open spec fn entry_ops(dest: Seq<char>, entry: ZipEntryView) -> Seq<ExtractOpView> {
    let target = spec_join(dest, entry.path);
    let placed = if is_dir_entry(entry.name) {
        seq![ExtractOpView::MakeDir { path: target }]
    } else {
        match spec_parent(target) {
            Some(dir) => seq![
                ExtractOpView::MakeDir { path: dir },
                ExtractOpView::WriteFile { path: target, data: entry.data },
            ],
            None => seq![ExtractOpView::WriteFile { path: target, data: entry.data }],
        }
    };
    match entry.mode {
        Some(mode) => placed.push(ExtractOpView::SetMode { path: target, mode }),
        None => placed,
    }
}

/// A member of an archive can be used if it could be read and can be placed.
pub open spec fn is_usable(member: Option<ZipEntryView>) -> bool {
    member matches Some(entry) && is_placeable(entry)
}

/// The operations for the first `upto` members, in the archive's order.
pub open spec fn planned_ops(
    dest: Seq<char>,
    members: Seq<Option<ZipEntryView>>,
    upto: int,
) -> Seq<ExtractOpView>
    decreases upto,
{
    if upto <= 0 {
        Seq::empty()
    } else {
        planned_ops(dest, members, upto - 1) + entry_ops(dest, members[upto - 1]->Some_0)
    }
}

/// The plan for a zip archive.
#[derive(Clone, Debug, PartialEq, Eq)]
pub struct Extraction {
    /// What to do, in this order.
    pub ops: Vec<ExtractOp>,
    /// How many entries `ops` covers, counted from the first.
    pub planned: usize,
    /// Why the entries after those were left out, if any was. What `ops` holds is still to be
    /// carried out: a part of an archive is better than none of it.
    pub failure: Option<UnwrapError>,
}

impl Extraction {
    /// `self` is the plan for an archive with these members below `dest`: it covers the
    /// members up to the first that cannot be used, and fails exactly if there is such a one.
    pub open spec fn plans(self, dest: Seq<char>, members: Seq<Option<ZipEntryView>>) -> bool {
        &&& self.planned <= members.len()
        &&& forall|i: int| 0 <= i < self.planned ==> is_usable(#[trigger] members[i])
        &&& ops_view(self.ops@) == planned_ops(dest, members, self.planned as int)
        &&& self.planned < members.len() ==> !is_usable(members[self.planned as int])
        &&& match self.failure {
            Some(error) => self.planned < members.len() && error@ is Decode
                && error@->Decode_format == WrappedFormat::Zip,
            None => self.planned == members.len(),
        }
    }
}

/// Whether `name` ends in `/`.
fn names_directory(name: &str) -> (b: bool)
    ensures
        b == is_dir_entry(name@),
{
    let chars = to_chars(name);
    chars.len() > 0 && chars[chars.len() - 1] == '/'
}

/// What placing `entry` below `dest` takes, or `None` for an entry that cannot be placed.
pub fn plan_entry(dest: &str, entry: ZipEntry) -> (plan: Option<Vec<ExtractOp>>)
    ensures
        match plan {
            Some(ops) => {
                &&& is_placeable(entry@)
                &&& ops_view(ops@) == entry_ops(dest@, entry@)
                &&& all_within(dest@, ops_view(ops@))
            },
            None => !is_placeable(entry@),
        },
{
    let is_dir = names_directory(entry.name.as_str());
    if !stays_inside(entry.path.as_str()) || (!is_dir && entry.path.as_str().unicode_len() == 0) {
        return None;
    }
    let target = join(dest, entry.path.as_str());
    let mut ops: Vec<ExtractOp> = Vec::new();
    if is_dir {
        ops.push(ExtractOp::MakeDir { path: target.clone() });
    } else {
        match parent(target.as_str()) {
            Some(dir) => {
                ops.push(ExtractOp::MakeDir { path: dir });
            },
            None => {},
        }
        ops.push(ExtractOp::WriteFile { path: target.clone(), data: entry.data });
    }
    match entry.mode {
        Some(mode) => {
            ops.push(ExtractOp::SetMode { path: target, mode });
        },
        None => {},
    }
    assert(ops_view(ops@) =~= entry_ops(dest@, entry@));
    proof {
        lemma_entry_stays_inside(dest@, entry@);
    }
    Some(ops)
}

/// Every operation for an entry that can be placed is within `dest`.
pub proof fn lemma_entry_stays_inside(dest: Seq<char>, entry: ZipEntryView)
    requires
        is_placeable(entry),
    ensures
        all_within(dest, entry_ops(dest, entry)),
{
    assert forall|k: int| 0 <= k < entry_ops(dest, entry).len() implies is_within(
        dest,
        #[trigger] entry_ops(dest, entry)[k].path(),
    ) by {
        assert(reaches(dest, entry.path, entry_ops(dest, entry)[k].path()));
    }
}

/// Whatever names the entries of an archive bear, every operation of its plan is within the
/// destination: nothing is created, written or changed outside it.
pub proof fn lemma_plan_stays_inside(
    dest: Seq<char>,
    members: Seq<Option<ZipEntryView>>,
    upto: int,
)
    requires
        0 <= upto <= members.len(),
        forall|i: int| 0 <= i < upto ==> is_usable(#[trigger] members[i]),
    ensures
        all_within(dest, planned_ops(dest, members, upto)),
    decreases upto,
{
    if upto > 0 {
        lemma_plan_stays_inside(dest, members, upto - 1);
        assert(is_usable(members[upto - 1]));
        lemma_entry_stays_inside(dest, members[upto - 1]->Some_0);
    }
}

/// `zip::ZipArchive`, the reader of an archive. What it holds is seen through `zip_members`.
#[verifier::external_type_specification]
#[verifier::external_body]
#[verifier::reject_recursive_types(R)]
pub struct ExZipArchive<R>(zip::ZipArchive<R>);

/// `std::io::Cursor`, which lets bytes in memory be read like a file.
#[verifier::external_type_specification]
#[verifier::external_body]
#[verifier::reject_recursive_types(T)]
pub struct ExCursor<T>(std::io::Cursor<T>);

/// The members of an open archive in the order of its central directory: each as the entry
/// that reading it gives, or `None` where it cannot be read.
pub uninterp spec fn zip_members(
    archive: zip::ZipArchive<std::io::Cursor<Vec<u8>>>,
) -> Seq<Option<ZipEntryView>>;

/// The members of the zip archive that the bytes `input` are, or `None` where they are none.
pub uninterp spec fn zip_listing(input: Seq<u8>) -> Option<Seq<Option<ZipEntryView>>>;

/// Calls `zip::ZipArchive::new` on the bytes. It finds the end record of the central directory
/// and reads the directory; it fails where either is missing or malformed, or the archive
/// spans several disks. Of the sums that it forms without a check, only that of an entry's
/// recorded offset and the number of bytes before the archive can exceed 64 bits on bytes held
/// in memory; `spec_offsets_fit` keeps it within them, so the call returns. The claim: an
/// archive that opens holds the members that the bytes list.
#[verifier::external_body]
fn zip_open(input: Vec<u8>) -> (r: Result<zip::ZipArchive<std::io::Cursor<Vec<u8>>>, String>)
    requires
        spec_offsets_fit(input@),
    ensures
        match r {
            Ok(archive) => zip_listing(input@) == Some(zip_members(archive)),
            Err(_) => zip_listing(input@) is None,
        },
{
    match zip::ZipArchive::new(std::io::Cursor::new(input)) {
        Ok(archive) => Ok(archive),
        Err(e) => Err(e.to_string()),
    }
}

/// Calls `zip::ZipArchive::len`: the number of entries in the central directory.
#[verifier::external_body]
fn zip_len(archive: &zip::ZipArchive<std::io::Cursor<Vec<u8>>>) -> (n: usize)
    ensures
        n == zip_members(*archive).len(),
{
    archive.len()
}

/// Calls `zip::ZipArchive::by_index` and reads the entry to its end, with its name
/// (`ZipFile::name`), its name as a relative path (`ZipFile::mangled_name`, which cuts the name
/// at a NUL and keeps its ordinary components only) and its permission bits
/// (`ZipFile::unix_mode`). It fails for an index past the last entry, an encrypted entry, an
/// unknown compression method, a bad local header, malformed data or a wrong checksum. It
/// reads the local header where the entry's offset points before it adds to that offset, so
/// the offset lies within the bytes by then. The claim: the archive holds what it held, and
/// the entry is its member at `index`.
#[verifier::external_body]
fn zip_read(archive: &mut zip::ZipArchive<std::io::Cursor<Vec<u8>>>, index: usize) -> (r: Result<
    ZipEntry,
    String,
>)
    ensures
        zip_members(*final(archive)) == zip_members(*old(archive)),
        index < zip_members(*old(archive)).len() ==> match r {
            Ok(entry) => zip_members(*old(archive))[index as int] == Some(entry@),
            Err(_) => zip_members(*old(archive))[index as int] is None,
        },
        index >= zip_members(*old(archive)).len() ==> r is Err,
{
    let mut data = Vec::new();
    match archive.by_index(index) {
        Ok(mut file) => match file.read_to_end(&mut data) {
            Ok(_) => {
                let path = file.mangled_name().to_string_lossy().into_owned();
                Ok(ZipEntry { name: file.name().to_string(), path, mode: file.unix_mode(), data })
            },
            Err(e) => Err(e.to_string()),
        },
        Err(e) => Err(e.to_string()),
    }
}

/// The plan for the archive of the given members below `dest`, read from `archive` one entry
/// at a time.
fn plan_archive(archive: &mut zip::ZipArchive<std::io::Cursor<Vec<u8>>>, dest: &str) -> (extraction:
    Extraction)
    ensures
        zip_members(*final(archive)) == zip_members(*old(archive)),
        extraction.plans(dest@, zip_members(*old(archive))),
        all_within(dest@, ops_view(extraction.ops@)),
{
    let ghost members = zip_members(*archive);
    let count = zip_len(archive);
    let mut ops: Vec<ExtractOp> = Vec::new();
    let mut i: usize = 0;
    while i < count
        invariant
            i <= count,
            count == members.len(),
            members == zip_members(*archive),
            members == zip_members(*old(archive)),
            forall|j: int| 0 <= j < i ==> is_usable(#[trigger] members[j]),
            ops_view(ops@) == planned_ops(dest@, members, i as int),
            all_within(dest@, ops_view(ops@)),
        decreases count - i,
    {
        match zip_read(archive, i) {
            Err(reason) => {
                return Extraction {
                    ops,
                    planned: i,
                    failure: Some(UnwrapError::Decode { format: WrappedFormat::Zip, reason }),
                };
            },
            Ok(entry) => {
                match plan_entry(dest, entry) {
                    None => {
                        return Extraction {
                            ops,
                            planned: i,
                            failure: Some(
                                UnwrapError::Decode {
                                    format: WrappedFormat::Zip,
                                    reason: "an entry has no place inside the destination".to_owned(),
                                },
                            ),
                        };
                    },
                    Some(mut more) => {
                        let ghost before = ops@;
                        let ghost added = more@;
                        ops.append(&mut more);
                        assert(ops_view(before + added) =~= ops_view(before) + ops_view(added));
                    },
                }
            },
        }
        i += 1;
    }
    Extraction { ops, planned: count, failure: None }
}

/// The members of the archive that the bytes `input` are, where they are an archive whose
/// offsets fit; `None` for any other bytes.
pub open spec fn readable_listing(input: Seq<u8>) -> Option<Seq<Option<ZipEntryView>>> {
    if spec_offsets_fit(input) {
        zip_listing(input)
    } else {
        None
    }
}

/// The plan for unpacking the zip archive `input` into the directory `dest`. Every entry is
/// placed by its relative path below `dest`; an entry whose path would still lead out of
/// `dest` ends the plan, as does one that cannot be read. Bytes that are no archive, or that
/// record an offset too large to be one, give a plan that holds nothing but the failure.
pub fn unwrap_zip(input: Vec<u8>, dest: &str) -> (extraction: Extraction)
    ensures
        all_within(dest@, ops_view(extraction.ops@)),
        match readable_listing(input@) {
            Some(members) => extraction.plans(dest@, members),
            None => {
                &&& extraction.planned == 0
                &&& extraction.ops@.len() == 0
                &&& extraction.failure matches Some(error)
                &&& error@ is Decode
                &&& error@->Decode_format == WrappedFormat::Zip
            },
        },
{
    if !offsets_fit(input.as_slice()) {
        return Extraction {
            ops: Vec::new(),
            planned: 0,
            failure: Some(
                UnwrapError::Decode {
                    format: WrappedFormat::Zip,
                    reason: "the archive records an offset that is out of range".to_owned(),
                },
            ),
        };
    }
    match zip_open(input) {
        Ok(mut archive) => plan_archive(&mut archive, dest),
        Err(reason) => Extraction {
            ops: Vec::new(),
            planned: 0,
            failure: Some(UnwrapError::Decode { format: WrappedFormat::Zip, reason }),
        },
    }
}

} // verus!
