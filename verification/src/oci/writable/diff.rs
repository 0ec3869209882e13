//! Portable diffs of writable roots: what is exported, and what is accepted back.

use crate::byteset::ByteSet;
use crate::checks;
use crate::lines;
use crate::lines::lossy_text;
use crate::oci::error;
use crate::oci::error::{SandboxError, SandboxFailure};
use crate::oci::provider::layer;
use crate::oci::provider::layer::EntryKind;
use crate::oci::writable::handle::WritableRootfsExport;
use crate::paths;
use crate::text;
use crate::text::join3;
use vstd::prelude::*;
use vstd::utf8::*;

verus! {

pub const MAXIMUM_DIFF_ENTRIES: usize = 100_000;

pub const MAXIMUM_PATH_BYTES: usize = 4_096;

pub const OVERLAY_OPAQUE_XATTR: &'static str = "trusted.overlay.opaque";

/// Why a path is refused behind `count` others.
pub open spec fn collect_failure(count: usize, length: usize) -> Option<SandboxFailure> {
    checks::or(
        checks::when(
            length > MAXIMUM_PATH_BYTES,
            SandboxFailure::ImageProvider("writable rootfs path exceeds its limit"@),
        ),
        checks::when(
            count >= MAXIMUM_DIFF_ENTRIES,
            SandboxFailure::ImageProvider("writable rootfs diff has too many entries"@),
        ),
    )
}

/// Accepts a path of `length` bytes behind `count` others.
pub fn collect_path(count: usize, length: usize) -> (r: Result<(), SandboxError>)
    ensures
        error::outcome(r) == checks::verdict(collect_failure(count, length)),
{
    if length > MAXIMUM_PATH_BYTES {
        return Err(
            SandboxError::ImageProvider("writable rootfs path exceeds its limit".to_owned()),
        );
    }
    if count >= MAXIMUM_DIFF_ENTRIES {
        return Err(
            SandboxError::ImageProvider("writable rootfs diff has too many entries".to_owned()),
        );
    }
    Ok(())
}

/// Looks for the upper layer that is exported.
pub fn check_upper(is_directory: bool) -> (r: Result<(), SandboxError>)
    ensures
        error::outcome(r) == checks::verdict(
            checks::when(
                !is_directory,
                SandboxFailure::ImageProvider("writable rootfs upper layer is unavailable"@),
            ),
        ),
{
    if !is_directory {
        return Err(
            SandboxError::ImageProvider("writable rootfs upper layer is unavailable".to_owned()),
        );
    }
    Ok(())
}

/// Looks at the upper layer that is restored: it has to be empty.
pub fn check_restore_target(is_empty: bool) -> (r: Result<(), SandboxError>)
    ensures
        error::outcome(r) == checks::verdict(
            checks::when(
                !is_empty,
                SandboxFailure::ImageProvider("writable rootfs restore target is not empty"@),
            ),
        ),
{
    if !is_empty {
        return Err(
            SandboxError::ImageProvider("writable rootfs restore target is not empty".to_owned()),
        );
    }
    Ok(())
}

/// What an entry of the upper layer is.
#[derive(Debug)]
pub enum UpperKind {
    CharacterDevice { device: u64 },
    Directory { opaque: bool },
    Symlink { target: Vec<u8> },
    File { links: u64, size: u64 },
    Other,
}

/// What the host says of an entry of the upper layer.
#[derive(Debug)]
pub struct UpperEntry {
    pub path: Vec<u8>,
    pub attributes: Vec<Vec<u8>>,
    pub mode: u32,
    pub modified: i64,
    pub kind: UpperKind,
}

/// A member that is appended to an archive.
#[derive(Debug, PartialEq, Eq)]
pub struct ArchiveMember {
    pub path: Vec<u8>,
    pub kind: EntryKind,
    pub mode: u32,
    pub modified: u64,
    pub size: u64,
    pub link: Option<Vec<u8>>,
}

/// An `ArchiveMember` with its vectors read as sequences.
pub struct MemberText {
    pub path: Seq<u8>,
    pub kind: EntryKind,
    pub mode: u32,
    pub modified: u64,
    pub size: u64,
    pub link: Option<Seq<u8>>,
}

impl View for ArchiveMember {
    type V = MemberText;

    open spec fn view(&self) -> MemberText {
        MemberText {
            path: self.path@,
            kind: self.kind,
            mode: self.mode,
            modified: self.modified,
            size: self.size,
            link: match self.link {
                Some(link) => Some(link@),
                None => None,
            },
        }
    }
}

/// The members of a row.
pub open spec fn members(row: Seq<ArchiveMember>) -> Seq<MemberText> {
    Seq::new(row.len(), |i: int| row[i]@)
}

/// An attribute that the overlay keeps for itself.
pub open spec fn is_overlay_attribute(name: Seq<u8>, is_directory: bool) -> bool {
    (is_directory && name == text::utf8(OVERLAY_OPAQUE_XATTR@)) || text::begins_with(
        name,
        text::utf8("trusted.overlay."@),
    )
}

/// Why the attributes of an entry are refused.
pub open spec fn attribute_failures(attributes: Seq<Vec<u8>>, is_directory: bool) -> Seq<
    Option<SandboxFailure>,
> {
    Seq::new(
        attributes.len(),
        |i: int|
            checks::when(
                !is_overlay_attribute(attributes[i]@, is_directory),
                SandboxFailure::ImageProvider(
                    "writable rootfs xattr `"@ + lines::lossy(attributes[i]@)
                        + "` is not portable"@,
                ),
            ),
    )
}

/// Accepts the attributes that the overlay keeps for itself.
pub fn validate_attributes(attributes: &Vec<Vec<u8>>, is_directory: bool) -> (r: Result<
    (),
    SandboxError,
>)
    ensures
        error::outcome(r) == checks::verdict(
            checks::first(attribute_failures(attributes@, is_directory)),
        ),
{
    let ghost failures = attribute_failures(attributes@, is_directory);
    let mut i: usize = 0;
    while i < attributes.len()
        invariant
            i <= attributes@.len(),
            failures == attribute_failures(attributes@, is_directory),
            forall|j: int| 0 <= j < i ==> #[trigger] failures[j] is None,
        decreases attributes@.len() - i,
    {
        let name = attributes[i].as_slice();
        let kept = (is_directory && text::same_bytes(name, OVERLAY_OPAQUE_XATTR.as_bytes()))
            || text::bytes_begin_with(name, "trusted.overlay.".as_bytes());
        if !kept {
            proof {
                checks::lemma_first_at(failures, i as int);
            }
            let shown = lossy_text(name);
            return Err(
                SandboxError::ImageProvider(
                    join3("writable rootfs xattr `", shown.as_str(), "` is not portable"),
                ),
            );
        }
        i += 1;
    }
    proof {
        checks::lemma_first_none(failures);
    }
    Ok(())
}

/// The path that marks `path` as removed.
pub open spec fn whiteout_path(path: Seq<u8>) -> Seq<u8> {
    let at = text::find_last(path, 47);
    path.take(at + 1) + seq![46u8, 119u8, 104u8, 46u8] + path.skip(at + 1)
}

/// The path that marks the directory `path` as opaque.
pub open spec fn opaque_path(path: Seq<u8>) -> Seq<u8> {
    path + seq![47u8] + text::utf8(".wh..wh..opq"@)
}

fn mark_removed(path: &[u8]) -> (r: Vec<u8>)
    ensures
        r@ == whiteout_path(path@),
{
    let length: usize = path.len();
    let start: usize = match text::find_last_byte(path, 47) {
        Some(at) => at + 1,
        None => 0,
    };
    let mut marked: Vec<u8> = text::copy_bytes(vstd::slice::slice_subrange(path, 0, start));
    marked.push(46);
    marked.push(119);
    marked.push(104);
    marked.push(46);
    marked.extend_from_slice(vstd::slice::slice_subrange(path, start, length));
    proof {
        assert(marked@ =~= whiteout_path(path@));
    }
    marked
}

/// The permission bits of a mode.
pub open spec fn permissions(mode: u32) -> u32 {
    (mode % 4_096) as u32
}

/// A member without content.
pub open spec fn empty_member(entry: UpperEntry, path: Seq<u8>, kind: EntryKind) -> MemberText {
    MemberText {
        path,
        kind,
        mode: permissions(entry.mode),
        modified: entry.modified as u64,
        size: 0,
        link: None,
    }
}

/// What is exported of an entry of the upper layer.
pub open spec fn exported(entry: UpperEntry) -> Seq<MemberText> {
    match entry.kind {
        UpperKind::CharacterDevice { .. } => seq![
            empty_member(entry, whiteout_path(entry.path@), EntryKind::File),
        ],
        UpperKind::Directory { opaque } => if opaque {
            seq![
                empty_member(entry, entry.path@, EntryKind::Directory),
                empty_member(entry, opaque_path(entry.path@), EntryKind::File),
            ]
        } else {
            seq![empty_member(entry, entry.path@, EntryKind::Directory)]
        },
        UpperKind::Symlink { target } => seq![
            MemberText {
                link: Some(target@),
                ..empty_member(entry, entry.path@, EntryKind::Symlink)
            },
        ],
        UpperKind::File { size, .. } => seq![
            MemberText { size, ..empty_member(entry, entry.path@, EntryKind::File) },
        ],
        UpperKind::Other => Seq::empty(),
    }
}

/// The bytes of content that are exported of an entry.
pub open spec fn content(entry: UpperEntry) -> nat {
    match entry.kind {
        UpperKind::File { size, .. } => size as nat,
        _ => 0,
    }
}

/// Why an entry is not exported behind files of `logical` bytes.
pub open spec fn export_failure(quota: u64, logical: u64, entry: UpperEntry) -> Option<
    SandboxFailure,
> {
    checks::or(
        checks::first(attribute_failures(entry.attributes@, entry.kind is Directory)),
        checks::or(
            match entry.kind {
                UpperKind::CharacterDevice { device } => checks::when(
                    device != 0,
                    SandboxFailure::ImageProvider(
                        "writable rootfs contains a non-whiteout character device"@,
                    ),
                ),
                UpperKind::Directory { .. } => None,
                UpperKind::Symlink { target } => checks::when(
                    !(0 < target@.len() <= MAXIMUM_PATH_BYTES),
                    SandboxFailure::ImageProvider("writable rootfs symlink target is invalid"@),
                ),
                UpperKind::File { links, size } => checks::or(
                    checks::when(
                        links != 1,
                        SandboxFailure::ImageProvider(
                            "writable rootfs hard links are not yet portable"@,
                        ),
                    ),
                    checks::or(
                        checks::when(
                            logical + size > u64::MAX,
                            SandboxFailure::ImageProvider(
                                "writable rootfs logical size overflow"@,
                            ),
                        ),
                        checks::when(
                            logical + size > quota,
                            SandboxFailure::ImageProvider(
                                "writable rootfs sparse content exceeds its quota"@,
                            ),
                        ),
                    ),
                ),
                UpperKind::Other => Some(
                    SandboxFailure::ImageProvider(
                        "writable rootfs contains unsupported entry `"@ + lines::lossy(entry.path@)
                            + "`"@,
                    ),
                ),
            },
            checks::when(
                entry.modified < 0,
                SandboxFailure::ImageProvider("writable rootfs mtime predates the Unix epoch"@),
            ),
        ),
    )
}

/// Why an entry is refused for what it is, before its time is looked at.
fn check_kind(quota: u64, logical: u64, entry: &UpperEntry) -> (r: Result<u64, SandboxError>)
    requires
        checks::first(attribute_failures(entry.attributes@, entry.kind is Directory)) is None,
    ensures
        match r {
            Ok(sum) => {
                &&& sum == logical + content(*entry)
                &&& entry.modified >= 0 ==> export_failure(quota, logical, *entry) is None
                &&& entry.modified < 0 ==> export_failure(quota, logical, *entry) == Some(
                    SandboxFailure::ImageProvider(
                        "writable rootfs mtime predates the Unix epoch"@,
                    ),
                )
            },
            Err(error) => export_failure(quota, logical, *entry) == Some(error@),
        },
{
    match &entry.kind {
        UpperKind::CharacterDevice { device } => {
            if *device != 0 {
                return Err(
                    SandboxError::ImageProvider(
                        "writable rootfs contains a non-whiteout character device".to_owned(),
                    ),
                );
            }
            Ok(logical)
        },
        UpperKind::Directory { opaque: _ } => Ok(logical),
        UpperKind::Symlink { target } => {
            if target.len() == 0 || target.len() > MAXIMUM_PATH_BYTES {
                return Err(
                    SandboxError::ImageProvider(
                        "writable rootfs symlink target is invalid".to_owned(),
                    ),
                );
            }
            Ok(logical)
        },
        UpperKind::File { links, size } => {
            if *links != 1 {
                return Err(
                    SandboxError::ImageProvider(
                        "writable rootfs hard links are not yet portable".to_owned(),
                    ),
                );
            }
            let sum: u64 = match logical.checked_add(*size) {
                Some(sum) => sum,
                None => {
                    return Err(
                        SandboxError::ImageProvider(
                            "writable rootfs logical size overflow".to_owned(),
                        ),
                    );
                },
            };
            if sum > quota {
                return Err(
                    SandboxError::ImageProvider(
                        "writable rootfs sparse content exceeds its quota".to_owned(),
                    ),
                );
            }
            Ok(sum)
        },
        UpperKind::Other => {
            let shown = lossy_text(entry.path.as_slice());
            Err(
                SandboxError::ImageProvider(
                    join3("writable rootfs contains unsupported entry `", shown.as_str(), "`"),
                ),
            )
        },
    }
}

/// An export under way.
#[derive(Clone, Copy, Debug, PartialEq, Eq, Structural)]
pub struct DiffExport {
    pub quota_bytes: u64,
    pub entries: usize,
    pub logical_bytes: u64,
}

impl DiffExport {
    pub fn new(quota_bytes: u64) -> (r: Self)
        ensures
            r.quota_bytes == quota_bytes,
            r.entries == 0,
            r.logical_bytes == 0,
    {
        DiffExport { quota_bytes, entries: 0, logical_bytes: 0 }
    }

    /// How large the archive may grow.
    pub fn archive_limit(&self) -> (r: u64)
        ensures
            r == (if self.quota_bytes * 2 > u64::MAX {
                u64::MAX as int
            } else {
                self.quota_bytes * 2
            }),
    {
        match self.quota_bytes.checked_mul(2) {
            Some(limit) => limit,
            None => u64::MAX,
        }
    }

    /// Exports the next entry: the members that the archive gets for it, or why there is no
    /// export.
    pub fn export(self, entry: &UpperEntry) -> (r: Result<(Self, Vec<ArchiveMember>), SandboxError>)
        requires
            self.entries < usize::MAX,
        ensures
            match r {
                Ok(step) => {
                    &&& export_failure(self.quota_bytes, self.logical_bytes, *entry) is None
                    &&& members(step.1@) == exported(*entry)
                    &&& step.0.quota_bytes == self.quota_bytes
                    &&& step.0.entries == self.entries + 1
                    &&& step.0.logical_bytes == self.logical_bytes + content(*entry)
                },
                Err(error) => export_failure(self.quota_bytes, self.logical_bytes, *entry) == Some(
                    error@,
                ),
            },
    {
        let is_directory = match &entry.kind {
            UpperKind::Directory { opaque: _ } => true,
            _ => false,
        };
        match validate_attributes(&entry.attributes, is_directory) {
            Ok(()) => {},
            Err(error) => return Err(error),
        }
        let logical_bytes: u64 = match check_kind(self.quota_bytes, self.logical_bytes, entry) {
            Ok(logical_bytes) => logical_bytes,
            Err(error) => return Err(error),
        };
        if entry.modified < 0 {
            return Err(
                SandboxError::ImageProvider(
                    "writable rootfs mtime predates the Unix epoch".to_owned(),
                ),
            );
        }
        let mode: u32 = entry.mode % 4_096;
        let modified: u64 = entry.modified as u64;
        let mut row: Vec<ArchiveMember> = Vec::new();
        match &entry.kind {
            UpperKind::CharacterDevice { device: _ } => {
                row.push(
                    ArchiveMember {
                        path: mark_removed(entry.path.as_slice()),
                        kind: EntryKind::File,
                        mode,
                        modified,
                        size: 0,
                        link: None,
                    },
                );
            },
            UpperKind::Directory { opaque } => {
                row.push(
                    ArchiveMember {
                        path: text::copy_bytes(entry.path.as_slice()),
                        kind: EntryKind::Directory,
                        mode,
                        modified,
                        size: 0,
                        link: None,
                    },
                );
                if *opaque {
                    let mut marker = text::copy_bytes(entry.path.as_slice());
                    marker.push(47);
                    marker.extend_from_slice(".wh..wh..opq".as_bytes());
                    proof {
                        assert(marker@ =~= opaque_path(entry.path@));
                    }
                    row.push(
                        ArchiveMember {
                            path: marker,
                            kind: EntryKind::File,
                            mode,
                            modified,
                            size: 0,
                            link: None,
                        },
                    );
                }
            },
            UpperKind::Symlink { target } => {
                row.push(
                    ArchiveMember {
                        path: text::copy_bytes(entry.path.as_slice()),
                        kind: EntryKind::Symlink,
                        mode,
                        modified,
                        size: 0,
                        link: Some(text::copy_bytes(target.as_slice())),
                    },
                );
            },
            UpperKind::File { links: _, size } => {
                row.push(
                    ArchiveMember {
                        path: text::copy_bytes(entry.path.as_slice()),
                        kind: EntryKind::File,
                        mode,
                        modified,
                        size: *size,
                        link: None,
                    },
                );
            },
            UpperKind::Other => {},
        }
        proof {
            assert(members(row@) =~= exported(*entry));
        }
        Ok(
            (
                DiffExport {
                    quota_bytes: self.quota_bytes,
                    entries: self.entries + 1,
                    logical_bytes,
                },
                row,
            ),
        )
    }

    /// What the export wrote into an archive of `archive_bytes` bytes.
    pub fn finish(self, archive_bytes: u64) -> (r: WritableRootfsExport)
        ensures
            r.entries == self.entries,
            r.logical_bytes == self.logical_bytes,
            r.archive_bytes == archive_bytes,
    {
        WritableRootfsExport {
            entries: self.entries,
            logical_bytes: self.logical_bytes,
            archive_bytes,
        }
    }
}

/// The bytes of an archive, counted as they are written.
#[derive(Clone, Copy, Debug, PartialEq, Eq, Structural)]
pub struct BoundedWriter {
    pub bytes: u64,
    pub maximum: u64,
}

/// Why a write of `length` bytes behind `bytes` is refused.
pub open spec fn write_failure(bytes: u64, length: nat, maximum: u64) -> Option<Seq<char>> {
    checks::or(
        checks::when(bytes + length > u64::MAX, "writable diff size overflow"@),
        checks::when(bytes + length > maximum, "writable diff exceeded its archive limit"@),
    )
}

impl BoundedWriter {
    pub fn new(maximum: u64) -> (r: Self)
        ensures
            r.bytes == 0,
            r.maximum == maximum,
    {
        BoundedWriter { bytes: 0, maximum }
    }

    /// Accepts a write of `length` bytes before it is made.
    pub fn before_write(&self, length: usize) -> (r: Result<(), String>)
        ensures
            match r {
                Ok(()) => write_failure(self.bytes, length as nat, self.maximum) is None,
                Err(reason) => write_failure(self.bytes, length as nat, self.maximum) == Some(
                    reason@,
                ),
            },
    {
        let next: u64 = match self.bytes.checked_add(length as u64) {
            Some(next) => next,
            None => return Err("writable diff size overflow".to_owned()),
        };
        if next > self.maximum {
            return Err("writable diff exceeded its archive limit".to_owned());
        }
        Ok(())
    }

    /// Counts the bytes that were written.
    pub fn after_write(self, written: usize) -> (r: Self)
        requires
            self.bytes + written <= u64::MAX,
        ensures
            r.bytes == self.bytes + written,
            r.maximum == self.maximum,
    {
        BoundedWriter { bytes: self.bytes + written as u64, maximum: self.maximum }
    }
}

/// `.wh.`
pub open spec fn whiteout_mark() -> Seq<u8> {
    seq![46u8, 119u8, 104u8, 46u8]
}

/// The name that a whiteout removes. Names that are no text mark nothing.
pub open spec fn removed_name(path: Seq<u8>) -> Option<Seq<u8>> {
    match paths::last_name(path) {
        Some(name) if valid_utf8(name) && text::begins_with(name, whiteout_mark()) => Some(
            name.skip(4),
        ),
        _ => None,
    }
}

/// `.wh..opq`, which marks its directory and removes nothing.
pub open spec fn is_opaque_mark(name: Seq<u8>) -> bool {
    name == text::utf8(".wh..opq"@)
}

/// The path that a whiteout at `path` removes.
pub open spec fn removed_path(path: Seq<u8>, name: Seq<u8>) -> Seq<u8> {
    let parts = paths::components(path).drop_last();
    let front = (if path.len() > 0 && path[0] == 47 {
        seq![47u8]
    } else {
        Seq::empty()
    }) + paths::spelled(parts);
    if paths::counts(name, parts.len() == 0 && !(path.len() > 0 && path[0] == 47)) {
        front + seq![47u8] + name
    } else {
        front
    }
}

/// What the names of an archive say so far: what is there, and what is removed.
pub struct WhiteoutAudit {
    pub ordinary: ByteSet,
    pub removed: ByteSet,
}

/// Why a path is refused behind others.
pub open spec fn conflict(ordinary: Set<Seq<u8>>, removed: Set<Seq<u8>>, path: Seq<u8>) -> Option<
    SandboxFailure,
> {
    match removed_name(path) {
        Some(name) => checks::when(
            !is_opaque_mark(name) && (ordinary.contains(removed_path(path, name))
                || removed.contains(removed_path(path, name))),
            SandboxFailure::ImageProvider("writable rootfs diff contains conflicting whiteouts"@),
        ),
        None => checks::when(
            removed.contains(paths::spelling(path)) || ordinary.contains(paths::spelling(path)),
            SandboxFailure::ImageProvider("writable rootfs diff contains conflicting entries"@),
        ),
    }
}

fn is_text(bytes: &Vec<u8>) -> (r: bool)
    ensures
        r == valid_utf8(bytes@),
{
    text::decode_utf8(text::copy_bytes(bytes.as_slice())).is_some()
}

/// The name that a whiteout removes.
fn find_removed(parts: &Vec<Vec<u8>>) -> (r: Option<Vec<u8>>)
    ensures
        match r {
            Some(name) => {
                &&& parts@.len() > 0
                &&& parts@.last()@ != seq![46u8]
                &&& parts@.last()@ != seq![46u8, 46u8]
                &&& valid_utf8(parts@.last()@)
                &&& text::begins_with(parts@.last()@, whiteout_mark())
                &&& name@ == parts@.last()@.skip(4)
            },
            None => parts@.len() == 0 || parts@.last()@ == seq![46u8] || parts@.last()@ == seq![
                46u8,
                46u8,
            ] || !valid_utf8(parts@.last()@) || !text::begins_with(
                parts@.last()@,
                whiteout_mark(),
            ),
        },
{
    match paths::name_of(parts) {
        None => None,
        Some(name) => {
            let mut mark: Vec<u8> = Vec::new();
            mark.push(46);
            mark.push(119);
            mark.push(104);
            mark.push(46);
            proof {
                assert(mark@ =~= whiteout_mark());
            }
            if is_text(name) && text::bytes_begin_with(name.as_slice(), mark.as_slice()) {
                let rest = vstd::slice::slice_subrange(name.as_slice(), 4, name.len());
                proof {
                    assert(rest@ =~= name@.skip(4));
                }
                Some(text::copy_bytes(rest))
            } else {
                None
            }
        },
    }
}

impl WhiteoutAudit {
    pub fn new() -> (r: Self)
        ensures
            r.ordinary@ == Set::<Seq<u8>>::empty(),
            r.removed@ == Set::<Seq<u8>>::empty(),
    {
        WhiteoutAudit { ordinary: ByteSet::new(), removed: ByteSet::new() }
    }

    /// Takes the next path of an archive, or says why the archive is refused.
    pub fn note(self, path: &[u8]) -> (r: Result<Self, SandboxError>)
        ensures
            match r {
                Ok(audit) => {
                    &&& conflict(self.ordinary@, self.removed@, path@) is None
                    &&& match removed_name(path@) {
                        Some(name) => {
                            &&& audit.ordinary@ == self.ordinary@
                            &&& audit.removed@ == (if is_opaque_mark(name) {
                                self.removed@
                            } else {
                                self.removed@.insert(removed_path(path@, name))
                            })
                        },
                        None => {
                            &&& audit.ordinary@ == self.ordinary@.insert(paths::spelling(path@))
                            &&& audit.removed@ == self.removed@
                        },
                    }
                },
                Err(error) => conflict(self.ordinary@, self.removed@, path@) == Some(error@),
            },
    {
        let WhiteoutAudit { mut ordinary, mut removed } = self;
        let parts = paths::component_list(path);
        let absolute = path.len() > 0 && path[0] == 47;
        proof {
            let all = paths::components(path@);
            assert(all == paths::strings(parts@));
            if all.len() > 0 {
                assert(all.last() == parts@.last()@);
            }
            assert(all.take(all.len() as int) =~= all);
        }
        match find_removed(&parts) {
            Some(name) => {
                if !text::same_bytes(name.as_slice(), ".wh..opq".as_bytes()) {
                    let count: usize = parts.len() - 1;
                    let mut target = paths::spell(absolute, &parts, count);
                    proof {
                        assert(paths::components(path@).drop_last() =~= paths::strings(
                            parts@,
                        ).take(count as int));
                        if name@.len() == 1 && name@[0] == 46 {
                            assert(name@ =~= seq![46u8]);
                        }
                    }
                    if name.len() > 0 && ((count == 0 && !absolute) || !(name.len() == 1 && name[0]
                        == 46)) {
                        target.push(47);
                        target.extend_from_slice(name.as_slice());
                    }
                    proof {
                        assert(target@ =~= removed_path(path@, name@));
                    }
                    if ordinary.contains(target.as_slice()) || removed.contains(target.as_slice()) {
                        return Err(
                            SandboxError::ImageProvider(
                                "writable rootfs diff contains conflicting whiteouts".to_owned(),
                            ),
                        );
                    }
                    removed.insert(target);
                }
            },
            None => {
                let own = paths::spell(absolute, &parts, parts.len());
                proof {
                    assert(own@ =~= paths::spelling(path@));
                }
                if removed.contains(own.as_slice()) || ordinary.contains(own.as_slice()) {
                    return Err(
                        SandboxError::ImageProvider(
                            "writable rootfs diff contains conflicting entries".to_owned(),
                        ),
                    );
                }
                ordinary.insert(own);
            },
        }
        Ok(WhiteoutAudit { ordinary, removed })
    }
}

/// What becomes of an unpacked entry.
#[derive(Debug)]
pub enum Conversion {
    /// It stays.
    Keep,
    /// It marks its directory as opaque.
    Opaque,
    /// It removes the name beside it.
    Remove { name: Vec<u8> },
}

/// What becomes of an unpacked entry at `path`.
pub fn conversion(path: &[u8]) -> (r: Conversion)
    ensures
        match removed_name(path@) {
            None => r is Keep,
            Some(name) => if is_opaque_mark(name) {
                r is Opaque
            } else {
                r matches Conversion::Remove { name: own } && own@ == name
            },
        },
{
    let parts = paths::component_list(path);
    proof {
        let all = paths::components(path@);
        if all.len() > 0 {
            assert(all.last() == parts@.last()@);
        }
    }
    match find_removed(&parts) {
        None => Conversion::Keep,
        Some(name) => if text::same_bytes(name.as_slice(), ".wh..opq".as_bytes()) {
            Conversion::Opaque
        } else {
            Conversion::Remove { name }
        },
    }
}

/// How deep a relative path lies.
pub fn depth(path: &[u8]) -> (r: usize)
    ensures
        r == paths::components(path@).len(),
{
    let parts = paths::component_list(path);
    proof {
        assert(paths::strings(parts@).len() == parts@.len());
    }
    parts.len()
}

/// Where a row of paths leads.
pub open spec fn audited(row: Seq<Seq<u8>>) -> Option<(Set<Seq<u8>>, Set<Seq<u8>>)>
    decreases row.len(),
{
    if row.len() == 0 {
        Some((Set::empty(), Set::empty()))
    } else {
        match audited(row.drop_last()) {
            None => None,
            Some(state) => if conflict(state.0, state.1, row.last()) is Some {
                None
            } else {
                match removed_name(row.last()) {
                    Some(name) => if is_opaque_mark(name) {
                        Some(state)
                    } else {
                        Some((state.0, state.1.insert(removed_path(row.last(), name))))
                    },
                    None => Some((state.0.insert(paths::spelling(row.last())), state.1)),
                }
            },
        }
    }
}

/// An archive that passes the audit removes nothing that it also brings.
pub proof fn law_no_path_is_both_brought_and_removed(row: Seq<Seq<u8>>)
    requires
        audited(row) is Some,
    ensures
        (audited(row)->0).0.disjoint((audited(row)->0).1),
    decreases row.len(),
{
    if row.len() > 0 {
        law_no_path_is_both_brought_and_removed(row.drop_last());
    }
}

/// The bytes of the marks.
proof fn lemma_marks()
    ensures
        text::utf8(".wh..opq"@) == seq![46u8, 119u8, 104u8, 46u8, 46u8, 111u8, 112u8, 113u8],
        text::utf8(".wh..wh..opq"@) == seq![46u8, 119u8, 104u8, 46u8] + seq![
            46u8,
            119u8,
            104u8,
            46u8,
            46u8,
            111u8,
            112u8,
            113u8,
        ],
        valid_utf8(seq![46u8, 119u8, 104u8, 46u8]),
        valid_utf8(text::utf8(".wh..opq"@)),
{
    reveal_strlit(".wh..opq");
    reveal_strlit(".wh..wh..opq");
    reveal_strlit(".wh.");
    assert(is_ascii_chars(".wh..opq"@));
    is_ascii_chars_encode_utf8(".wh..opq"@);
    assert(is_ascii_chars(".wh..wh..opq"@));
    is_ascii_chars_encode_utf8(".wh..wh..opq"@);
    assert(is_ascii_chars(".wh."@));
    is_ascii_chars_encode_utf8(".wh."@);
    assert(text::utf8(".wh."@) =~= seq![46u8, 119u8, 104u8, 46u8]);
    encode_utf8_valid_utf8(".wh."@);
    encode_utf8_valid_utf8(".wh..opq"@);
    assert(text::utf8(".wh..opq"@) =~= seq![
        46u8,
        119u8,
        104u8,
        46u8,
        46u8,
        111u8,
        112u8,
        113u8,
    ]);
    assert(text::utf8(".wh..wh..opq"@) =~= seq![46u8, 119u8, 104u8, 46u8] + seq![
        46u8,
        119u8,
        104u8,
        46u8,
        46u8,
        111u8,
        112u8,
        113u8,
    ]);
}

/// What the mark `.wh.` before a name in a directory says.
proof fn lemma_marked_name(directory: Seq<u8>, name: Seq<u8>)
    requires
        directory.len() == 0 || directory.last() == 47,
        !text::has_byte(name, 47),
        valid_utf8(name),
    ensures
        ({
            let path = directory + seq![46u8, 119u8, 104u8, 46u8] + name;
            &&& paths::components(path) == paths::components(directory).push(
                seq![46u8, 119u8, 104u8, 46u8] + name,
            )
            &&& removed_name(path) == Some(name)
        }),
{
    let mark = seq![46u8, 119u8, 104u8, 46u8];
    let marked = mark + name;
    let path = directory + mark + name;
    lemma_marks();
    valid_utf8_concat(mark, name);
    assert(path =~= directory + marked);
    assert forall|i: int| 0 <= i < marked.len() implies #[trigger] marked[i] != 47 by {
        if i >= 4 {
            assert(name[i - 4] != 47);
        }
    }
    paths::law_names_are_last_components(directory, marked);
    assert(paths::components(path).last() == marked);
    assert(marked.subrange(0, 4) =~= whiteout_mark());
    assert(marked.skip(4) =~= name);
}

/// An exported removal reads back as that removal: what is exported for the whiteout of a name in
/// a directory is one empty file in that directory, which is read as the removal of that name.
pub proof fn law_exported_removals_read_back(entry: UpperEntry, directory: Seq<u8>, name: Seq<u8>)
    requires
        entry.kind is CharacterDevice,
        entry.path@ == directory + name,
        directory.len() == 0 || directory.last() == 47,
        name.len() > 0,
        !text::has_byte(name, 47),
        name != seq![46u8],
        name != seq![46u8, 46u8],
        valid_utf8(name),
    ensures
        exported(entry).len() == 1,
        ({
            let member = exported(entry)[0];
            &&& member.path == directory + seq![46u8, 119u8, 104u8, 46u8] + name
            &&& member.kind is File
            &&& member.size == 0
            &&& member.link is None
            &&& paths::components(entry.path@).last() == name
            &&& paths::components(member.path).drop_last() == paths::components(
                entry.path@,
            ).drop_last()
            &&& removed_name(member.path) == Some(name)
            &&& removed_path(member.path, name) == paths::spelling(entry.path@)
        }),
{
    let at = directory.len() - 1;
    let path = entry.path@;
    assert forall|j: int| at < j < path.len() implies #[trigger] path[j] != 47 by {
        assert(path[j] == name[j - directory.len()]);
    }
    text::lemma_find_last_at(path, 47, at);
    assert(path.take(at + 1) =~= directory);
    assert(path.skip(at + 1) =~= name);
    let marked = directory + seq![46u8, 119u8, 104u8, 46u8] + name;
    assert(whiteout_path(path) =~= marked);
    paths::law_names_are_last_components(directory, name);
    lemma_marked_name(directory, name);
    let parts = paths::components(directory);
    assert(paths::components(marked).drop_last() =~= parts);
    assert(paths::components(path).drop_last() =~= parts);
    assert(removed_path(marked, name) =~= paths::spelling(path));
}

/// An exported opaque directory reads back as one: what is exported for it is the directory and,
/// in it, the empty file that marks it.
pub proof fn law_exported_opaque_directories_read_back(entry: UpperEntry)
    requires
        entry.kind matches UpperKind::Directory { opaque } && opaque,
    ensures
        exported(entry).len() == 2,
        exported(entry)[0].path == entry.path@,
        exported(entry)[0].kind is Directory,
        ({
            let marker = exported(entry)[1];
            &&& marker.kind is File
            &&& marker.size == 0
            &&& paths::components(marker.path).drop_last() == paths::components(entry.path@)
            &&& removed_name(marker.path) is Some
            &&& is_opaque_mark(removed_name(marker.path)->0)
        }),
{
    lemma_marks();
    let directory = entry.path@ + seq![47u8];
    let name = text::utf8(".wh..opq"@);
    let mark = seq![46u8, 119u8, 104u8, 46u8];
    assert(opaque_path(entry.path@) =~= directory + mark + name);
    lemma_marked_name(directory, name);
    text::lemma_split_behind(entry.path@, Seq::empty(), 47);
    assert(directory =~= entry.path@ + seq![47u8] + Seq::<u8>::empty());
    let pieces = text::split(entry.path@, 47);
    assert(pieces.push(Seq::<u8>::empty()).drop_last() =~= pieces);
    assert(paths::components(opaque_path(entry.path@)).drop_last() =~= paths::components(
        directory,
    ));
}

/// What is exported of an entry keeps its path, kind, permission bits, time, length and target;
/// only the whiteout of a name and the mark of an opaque directory are written otherwise.
pub proof fn law_exports_keep_their_entries(entry: UpperEntry, i: int)
    requires
        0 <= i < exported(entry).len(),
    ensures
        exported(entry)[i].mode == entry.mode & 0o7777,
        exported(entry)[i].modified == entry.modified as u64,
        match entry.kind {
            UpperKind::CharacterDevice { .. } => exported(entry).len() == 1 && exported(entry)[i].kind
                is File && exported(entry)[i].size == 0 && exported(entry)[i].link is None,
            UpperKind::Directory { opaque } => exported(entry).len() == (if opaque {
                2int
            } else {
                1int
            }) && exported(entry)[0].path == entry.path@ && exported(entry)[0].kind is Directory
                && exported(entry)[i].size == 0 && exported(entry)[i].link is None,
            UpperKind::Symlink { target } => exported(entry).len() == 1 && exported(entry)[0].path
                == entry.path@ && exported(entry)[0].kind is Symlink && exported(entry)[0].link
                == Some(target@) && exported(entry)[0].size == 0,
            UpperKind::File { size, .. } => exported(entry).len() == 1 && exported(entry)[0].path
                == entry.path@ && exported(entry)[0].kind is File && exported(entry)[0].link is None
                && exported(entry)[0].size == size,
            UpperKind::Other => false,
        },
{
    let mode = entry.mode;
    assert(mode & 0o7777 == mode % 4_096) by (bit_vector);
}

/// An entry is exported exactly where it is portable: its attributes are the overlay's own, it is
/// a whiteout, a directory, a link to something, or a file with one name whose content still fits
/// the quota, and it was not changed before the epoch.
pub proof fn law_exported_entries_are_portable(quota: u64, logical: u64, entry: UpperEntry)
    ensures
        export_failure(quota, logical, entry) is None <==> {
            &&& entry.modified >= 0
            &&& forall|i: int|
                0 <= i < entry.attributes@.len() ==> {
                    let name = (#[trigger] entry.attributes@[i])@;
                    name.len() >= 16 && name.take(16) == text::utf8("trusted.overlay."@)
                }
            &&& match entry.kind {
                UpperKind::CharacterDevice { device } => device == 0,
                UpperKind::Directory { .. } => true,
                UpperKind::Symlink { target } => 1 <= target@.len() <= 4_096,
                UpperKind::File { links, size } => links == 1 && logical + size <= quota,
                UpperKind::Other => false,
            }
        },
{
    reveal_strlit("trusted.overlay.");
    reveal_strlit("trusted.overlay.opaque");
    assert(is_ascii_chars("trusted.overlay."@));
    is_ascii_chars_encode_utf8("trusted.overlay."@);
    assert(is_ascii_chars("trusted.overlay.opaque"@));
    is_ascii_chars_encode_utf8("trusted.overlay.opaque"@);
    let prefix = text::utf8("trusted.overlay."@);
    assert(prefix.len() == 16);
    assert(text::utf8(OVERLAY_OPAQUE_XATTR@).take(16) =~= prefix);
    let failures = attribute_failures(entry.attributes@, entry.kind is Directory);
    assert forall|i: int| 0 <= i < entry.attributes@.len() implies (failures[i] is None <==> {
        let name = (#[trigger] entry.attributes@[i])@;
        name.len() >= 16 && name.take(16) == prefix
    }) by {
        let name = entry.attributes@[i]@;
        if name.len() >= 16 {
            assert(name.subrange(0, 16) =~= name.take(16));
        }
    }
    if forall|i: int| 0 <= i < failures.len() ==> #[trigger] failures[i] is None {
        checks::lemma_first_none(failures);
    } else {
        if checks::first(failures) is None {
            assert forall|i: int| 0 <= i < failures.len() implies #[trigger] failures[i] is None by {
                checks::lemma_first_passes(failures, i);
            }
        }
        let i = choose|i: int| 0 <= i < failures.len() && !(#[trigger] failures[i] is None);
        assert(entry.attributes@[i]@ == entry.attributes@[i]@);
    }
    if forall|i: int|
        0 <= i < entry.attributes@.len() ==> {
            let name = (#[trigger] entry.attributes@[i])@;
            name.len() >= 16 && name.take(16) == prefix
        } {
        assert forall|i: int| 0 <= i < failures.len() implies #[trigger] failures[i] is None by {
            assert(entry.attributes@[i]@.len() >= 16);
        }
    }
}

/// A path in a walk is taken exactly where it is not too long and not one too many.
pub proof fn law_collected_paths_are_bounded(count: usize, length: usize)
    ensures
        collect_failure(count, length) is None <==> length <= 4_096 && count < 100_000,
{
}

/// An archive is written up to its limit and no further.
pub proof fn law_writes_are_bounded(bytes: u64, length: nat, maximum: u64)
    ensures
        write_failure(bytes, length, maximum) is None <==> bytes + length <= maximum,
        maximum < bytes + length <= u64::MAX ==> write_failure(bytes, length, maximum) == Some(
            "writable diff exceeded its archive limit"@,
        ),
{
}

/// Two paths of an archive stand against one another: both bring one entry, both remove one name,
/// or one brings what the other removes.
pub open spec fn clash(left: Seq<u8>, right: Seq<u8>) -> bool {
    match (removed_name(left), removed_name(right)) {
        (None, None) => paths::spelling(left) == paths::spelling(right),
        (Some(name), None) => !is_opaque_mark(name) && removed_path(left, name) == paths::spelling(
            right,
        ),
        (None, Some(name)) => !is_opaque_mark(name) && removed_path(right, name)
            == paths::spelling(left),
        (Some(own), Some(other)) => !is_opaque_mark(own) && !is_opaque_mark(other) && removed_path(
            left,
            own,
        ) == removed_path(right, other),
    }
}

/// An archive passes the audit exactly where no two of its paths stand against one another.
pub proof fn law_accepted_archives_do_not_contradict_themselves(row: Seq<Seq<u8>>)
    ensures
        audited(row) is Some <==> forall|i: int, j: int|
            0 <= i < j < row.len() ==> !clash(#[trigger] row[i], #[trigger] row[j]),
        audited(row) matches Some(state) ==> {
            &&& forall|path: Seq<u8>|
                #[trigger] state.0.contains(path) <==> exists|i: int|
                    0 <= i < row.len() && removed_name(#[trigger] row[i]) is None
                        && paths::spelling(row[i]) == path
            &&& forall|path: Seq<u8>|
                #[trigger] state.1.contains(path) <==> exists|i: int|
                    0 <= i < row.len() && removed_name(#[trigger] row[i]) is Some
                        && !is_opaque_mark(removed_name(row[i])->0) && removed_path(
                        row[i],
                        removed_name(row[i])->0,
                    ) == path
        },
    decreases row.len(),
{
    if row.len() > 0 {
        let front = row.drop_last();
        let last = row.last();
        law_accepted_archives_do_not_contradict_themselves(front);
        assert(forall|i: int| 0 <= i < front.len() ==> #[trigger] front[i] == row[i]);
        match audited(front) {
            None => {
                let (i, j) = choose|i: int, j: int|
                    0 <= i < j < front.len() && clash(#[trigger] front[i], #[trigger] front[j]);
                assert(clash(row[i], row[j]));
            },
            Some(state) => {
                assert(conflict(state.0, state.1, last) is Some <==> exists|i: int|
                    0 <= i < front.len() && clash(#[trigger] front[i], last)) by {
                    if conflict(state.0, state.1, last) is Some {
                        let target = match removed_name(last) {
                            Some(name) => removed_path(last, name),
                            None => paths::spelling(last),
                        };
                        if state.0.contains(target) {
                            let i = choose|i: int|
                                0 <= i < front.len() && removed_name(#[trigger] front[i]) is None
                                    && paths::spelling(front[i]) == target;
                            assert(clash(front[i], last));
                        } else {
                            assert(state.1.contains(target));
                            let i = choose|i: int|
                                0 <= i < front.len() && removed_name(#[trigger] front[i]) is Some
                                    && !is_opaque_mark(removed_name(front[i])->0) && removed_path(
                                    front[i],
                                    removed_name(front[i])->0,
                                ) == target;
                            assert(clash(front[i], last));
                        }
                    }
                    if exists|i: int| 0 <= i < front.len() && clash(#[trigger] front[i], last) {
                        let i = choose|i: int|
                            0 <= i < front.len() && clash(#[trigger] front[i], last);
                        match removed_name(front[i]) {
                            Some(name) => assert(state.1.contains(removed_path(front[i], name))),
                            None => assert(state.0.contains(paths::spelling(front[i]))),
                        }
                    }
                }
                if conflict(state.0, state.1, last) is Some {
                    let i = choose|i: int| 0 <= i < front.len() && clash(#[trigger] front[i], last);
                    assert(clash(row[i], row[row.len() - 1]));
                } else {
                    assert forall|i: int, j: int| 0 <= i < j < row.len() implies !clash(
                        #[trigger] row[i],
                        #[trigger] row[j],
                    ) by {
                        assert(front[i] == row[i]);
                        if j < front.len() {
                            assert(front[j] == row[j]);
                        }
                    }
                    let grown = audited(row)->0;
                    assert forall|path: Seq<u8>| #[trigger] grown.0.contains(path) <==> exists|i: int|
                        0 <= i < row.len() && removed_name(#[trigger] row[i]) is None
                            && paths::spelling(row[i]) == path by {
                        if state.0.contains(path) {
                            let i = choose|i: int|
                                0 <= i < front.len() && removed_name(#[trigger] front[i]) is None
                                    && paths::spelling(front[i]) == path;
                            assert(row[i] == front[i]);
                        } else if grown.0.contains(path) {
                            assert(row[row.len() - 1] == last);
                        }
                        if exists|i: int|
                            0 <= i < row.len() && removed_name(#[trigger] row[i]) is None
                                && paths::spelling(row[i]) == path {
                            let i = choose|i: int|
                                0 <= i < row.len() && removed_name(#[trigger] row[i]) is None
                                    && paths::spelling(row[i]) == path;
                            if i < front.len() {
                                assert(front[i] == row[i]);
                                assert(state.0.contains(path));
                            }
                        }
                    }
                    assert forall|path: Seq<u8>| #[trigger] grown.1.contains(path) <==> exists|i: int|
                        0 <= i < row.len() && removed_name(#[trigger] row[i]) is Some
                            && !is_opaque_mark(removed_name(row[i])->0) && removed_path(
                            row[i],
                            removed_name(row[i])->0,
                        ) == path by {
                        if state.1.contains(path) {
                            let i = choose|i: int|
                                0 <= i < front.len() && removed_name(#[trigger] front[i]) is Some
                                    && !is_opaque_mark(removed_name(front[i])->0) && removed_path(
                                    front[i],
                                    removed_name(front[i])->0,
                                ) == path;
                            assert(row[i] == front[i]);
                        } else if grown.1.contains(path) {
                            assert(row[row.len() - 1] == last);
                        }
                        if exists|i: int|
                            0 <= i < row.len() && removed_name(#[trigger] row[i]) is Some
                                && !is_opaque_mark(removed_name(row[i])->0) && removed_path(
                                row[i],
                                removed_name(row[i])->0,
                            ) == path {
                            let i = choose|i: int|
                                0 <= i < row.len() && removed_name(#[trigger] row[i]) is Some
                                    && !is_opaque_mark(removed_name(row[i])->0) && removed_path(
                                    row[i],
                                    removed_name(row[i])->0,
                                ) == path;
                            if i < front.len() {
                                assert(front[i] == row[i]);
                                assert(state.1.contains(path));
                            }
                        }
                    }
                }
            },
        }
    }
}

/// A difference has at most a hundred thousand entries of paths of at most four kibibytes, and an
/// attribute of the overlay marks its opaque directories.
pub proof fn law_differences_are_limited()
    ensures
        MAXIMUM_DIFF_ENTRIES == 100_000,
        MAXIMUM_PATH_BYTES == 4 * 1024,
        OVERLAY_OPAQUE_XATTR@ == "trusted.overlay.opaque"@,
{
}

/// Each refusal of a difference is of its kind.
pub proof fn law_refused_differences_say_why(
    count: usize,
    length: usize,
    bytes: u64,
    written: nat,
    maximum: u64,
    quota: u64,
    logical: u64,
    entry: UpperEntry,
)
    ensures
        length > 4_096 ==> collect_failure(count, length) == Some(
            SandboxFailure::ImageProvider("writable rootfs path exceeds its limit"@),
        ),
        length <= 4_096 && count >= 100_000 ==> collect_failure(count, length) == Some(
            SandboxFailure::ImageProvider("writable rootfs diff has too many entries"@),
        ),
        maximum < bytes + written <= 0xffff_ffff_ffff_ffff ==> write_failure(
            bytes,
            written,
            maximum,
        ) == Some("writable diff exceeded its archive limit"@),
        checks::first(attribute_failures(entry.attributes@, entry.kind is Directory)) is None
            && entry.kind is Other ==> export_failure(quota, logical, entry) == Some(
            SandboxFailure::ImageProvider(
                "writable rootfs contains unsupported entry `"@ + lines::lossy(entry.path@) + "`"@,
            ),
        ),
        checks::first(attribute_failures(entry.attributes@, entry.kind is Directory)) is None ==> (
        entry.kind matches UpperKind::CharacterDevice { device } ==> (device != 0 ==> export_failure(
            quota,
            logical,
            entry,
        ) == Some(
            SandboxFailure::ImageProvider(
                "writable rootfs contains a non-whiteout character device"@,
            ),
        ))),
        checks::first(attribute_failures(entry.attributes@, entry.kind is Directory)) is None ==> (
        entry.kind matches UpperKind::File { links, .. } ==> (links != 1 ==> export_failure(
            quota,
            logical,
            entry,
        ) == Some(
            SandboxFailure::ImageProvider("writable rootfs hard links are not yet portable"@),
        ))),
{
}

/// A removal is marked in the directory of what was removed, by `.wh.` before its name, whatever
/// that name is.
pub proof fn law_removals_are_marked_beside_the_removed(
    entry: UpperEntry,
    directory: Seq<u8>,
    name: Seq<u8>,
)
    requires
        entry.kind is CharacterDevice,
        !text::has_byte(name, 47),
    ensures
        entry.path@ == name ==> exported(entry)[0].path == seq![46u8, 119u8, 104u8, 46u8] + name,
        entry.path@ == directory + seq![47u8] + name ==> exported(entry)[0].path == directory
            + seq![47u8, 46u8, 119u8, 104u8, 46u8] + name,
{
    text::law_the_last_separator_has_none_behind_it(directory, name, 47);
    let mark = seq![46u8, 119u8, 104u8, 46u8];
    if entry.path@ == name {
        assert(name.take(0) + mark + name.skip(0) =~= mark + name);
    }
    if entry.path@ == directory + seq![47u8] + name {
        let path = entry.path@;
        let at = directory.len() as int;
        assert(path.take(at + 1) + mark + path.skip(at + 1) =~= directory + seq![
            47u8,
            46u8,
            119u8,
            104u8,
            46u8,
        ] + name);
    }
}

/// An opaque directory is marked by the file `.wh..wh..opq` in it.
pub proof fn law_opaque_directories_hold_their_mark(entry: UpperEntry, name: Seq<u8>)
    ensures
        entry.kind matches UpperKind::Directory { opaque } ==> (opaque ==> exported(entry)[1].path
            == entry.path@ + seq![
            47u8,
            46u8,
            119u8,
            104u8,
            46u8,
            46u8,
            119u8,
            104u8,
            46u8,
            46u8,
            111u8,
            112u8,
            113u8,
        ]),
        is_opaque_mark(name) <==> name == seq![
            46u8,
            119u8,
            104u8,
            46u8,
            46u8,
            111u8,
            112u8,
            113u8,
        ],
{
    reveal_strlit(".wh..wh..opq");
    assert(vstd::utf8::is_ascii_chars(".wh..wh..opq"@));
    vstd::utf8::is_ascii_chars_encode_utf8(".wh..wh..opq"@);
    reveal_strlit(".wh..opq");
    assert(vstd::utf8::is_ascii_chars(".wh..opq"@));
    vstd::utf8::is_ascii_chars_encode_utf8(".wh..opq"@);
    assert(text::utf8(".wh..opq"@) =~= seq![46u8, 119u8, 104u8, 46u8, 46u8, 111u8, 112u8, 113u8]);
    let mark = text::utf8(".wh..wh..opq"@);
    assert(entry.path@ + seq![47u8] + mark =~= entry.path@ + seq![
        47u8,
        46u8,
        119u8,
        104u8,
        46u8,
        46u8,
        119u8,
        104u8,
        46u8,
        46u8,
        111u8,
        112u8,
        113u8,
    ]);
}

/// A path reads as a removal exactly where its name is text that starts with `.wh.`, and what is
/// removed is the rest of that name.
pub proof fn law_removals_are_read_by_their_mark(path: Seq<u8>, rest: Seq<u8>)
    ensures
        removed_name(path) == Some(rest) <==> (paths::last_name(path) matches Some(name)
            && valid_utf8(name) && name == seq![46u8, 119u8, 104u8, 46u8] + rest),
{
    let mark = seq![46u8, 119u8, 104u8, 46u8];
    match paths::last_name(path) {
        Some(name) => {
            if valid_utf8(name) && text::begins_with(name, whiteout_mark()) {
                assert(name =~= mark + name.skip(4));
                assert((mark + rest).skip(4) =~= rest);
            }
            if name == mark + rest {
                assert(name.subrange(0, 4) =~= mark);
                assert(name.skip(4) =~= rest);
            }
        },
        None => {},
    }
}

} // verus!
