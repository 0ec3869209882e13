//! Archives of directory volumes: what is exported, and what is accepted back.

use crate::byteset::ByteSet;
use crate::checks;
use crate::oci::error;
use crate::oci::provider::layer;
use crate::oci::provider::layer::plain_component;
use crate::paths;
use crate::paths::{component_list, spell};
use crate::text;
use crate::volume::error::{VolumeError, VolumeFailure};
use vstd::prelude::*;

verus! {

pub const MAXIMUM_ENTRIES: usize = 100_000;

pub const MAXIMUM_PATH_BYTES: usize = 4_096;

pub const MAXIMUM_PATH_DEPTH: usize = 64;

/// The number of steps of a path; the root is one.
pub open spec fn depth(path: Seq<u8>) -> int {
    paths::components(path).len() + (if path.len() > 0 && path[0] == 47 {
        1int
    } else {
        0
    })
}

/// A path that is too long or leads too deep.
pub open spec fn is_excessive(path: Seq<u8>) -> bool {
    path.len() > MAXIMUM_PATH_BYTES || depth(path) > MAXIMUM_PATH_DEPTH
}

/// Why a path is not collected behind `count` others.
pub open spec fn collect_failure(count: usize, relative: Seq<u8>) -> Option<VolumeFailure> {
    checks::or(
        checks::when(
            is_excessive(relative),
            VolumeFailure::Invalid("volume snapshot path exceeds its length or depth limit"@),
        ),
        checks::when(
            count >= MAXIMUM_ENTRIES,
            VolumeFailure::Invalid("volume snapshot has too many entries"@),
        ),
    )
}

/// Whether a path, given with its components, is too long or leads too deep.
fn excessive(path: &[u8], parts: &Vec<Vec<u8>>) -> (r: bool)
    requires
        paths::strings(parts@) == paths::components(path@),
    ensures
        r == is_excessive(path@),
{
    let length: usize = path.len();
    let count: usize = parts.len();
    proof {
        assert(paths::strings(parts@).len() == count);
    }
    let absolute = length > 0 && path[0] == 47;
    length > MAXIMUM_PATH_BYTES || count > MAXIMUM_PATH_DEPTH || (absolute && count
        == MAXIMUM_PATH_DEPTH)
}

/// Accepts a path of a volume behind `count` others.
pub fn collect_path(count: usize, relative: &[u8]) -> (r: Result<(), VolumeError>)
    ensures
        error::outcome(r) == checks::verdict(collect_failure(count, relative@)),
{
    let parts = component_list(relative);
    if excessive(relative, &parts) {
        return Err(
            VolumeError::Invalid(
                "volume snapshot path exceeds its length or depth limit".to_owned(),
            ),
        );
    }
    if count >= MAXIMUM_ENTRIES {
        return Err(VolumeError::Invalid("volume snapshot has too many entries".to_owned()));
    }
    Ok(())
}

/// Accepts the file that an export is to be written to.
pub fn check_destination(destination: &str, exists_already: bool) -> (r: Result<(), VolumeError>)
    ensures
        error::outcome(r) == checks::verdict(
            checks::when(exists_already, VolumeFailure::AlreadyExists(destination@)),
        ),
{
    if exists_already {
        return Err(VolumeError::AlreadyExists(destination.to_owned()));
    }
    Ok(())
}

/// What an entry of a volume is.
#[derive(Clone, Copy, Debug, PartialEq, Eq, Structural)]
pub enum ExportKind {
    /// A file with its links, its size and the blocks of 512 bytes that it takes up.
    File { links: u64, size: u64, blocks: u64 },
    Directory,
    Symlink,
    Other,
}

/// Twice the size, as far as it can be counted.
pub open spec fn doubled(size: u64) -> int {
    if size * 2 > u64::MAX {
        u64::MAX as int
    } else {
        size * 2
    }
}

/// How large the archive of a volume may grow.
pub fn archive_limit(quota_bytes: u64) -> (r: u64)
    ensures
        r == doubled(quota_bytes),
{
    match quota_bytes.checked_mul(2) {
        Some(limit) => limit,
        None => u64::MAX,
    }
}

/// A file that takes up less than it holds.
pub open spec fn is_sparse(size: u64, blocks: u64) -> bool {
    blocks * 512 < size
}

/// Why an entry is not exported behind files of `logical` bytes.
pub open spec fn export_failure(
    quota_bytes: u64,
    logical_bytes: u64,
    has_attributes: bool,
    kind: ExportKind,
) -> Option<VolumeFailure> {
    checks::or(
        checks::when(
            has_attributes,
            VolumeFailure::Unsupported("directory snapshot does not support extended attributes"@),
        ),
        match kind {
            ExportKind::File { links, size, blocks } => checks::or(
                checks::when(
                    links != 1,
                    VolumeFailure::Unsupported("directory snapshot does not support hard links"@),
                ),
                checks::or(
                    checks::when(
                        is_sparse(size, blocks),
                        VolumeFailure::Unsupported(
                            "directory snapshot does not support sparse files"@,
                        ),
                    ),
                    checks::or(
                        checks::when(
                            logical_bytes + size > u64::MAX,
                            VolumeFailure::Invalid("volume size overflow"@),
                        ),
                        checks::when(
                            logical_bytes + size > quota_bytes,
                            VolumeFailure::Invalid(
                                "directory content exceeds its declared quota"@,
                            ),
                        ),
                    ),
                ),
            ),
            ExportKind::Directory | ExportKind::Symlink => None,
            ExportKind::Other => Some(
                VolumeFailure::Unsupported("directory snapshot contains a special file"@),
            ),
        },
    )
}

/// The bytes that an entry adds.
pub open spec fn exported_bytes(kind: ExportKind) -> nat {
    match kind {
        ExportKind::File { size, .. } => size as nat,
        _ => 0,
    }
}

/// An export under way.
#[derive(Clone, Copy, Debug, PartialEq, Eq, Structural)]
pub struct ArchiveExport {
    pub quota_bytes: u64,
    pub logical_bytes: u64,
}

impl ArchiveExport {
    pub fn new(quota_bytes: u64) -> (r: Self)
        ensures
            r.quota_bytes == quota_bytes,
            r.logical_bytes == 0,
    {
        ArchiveExport { quota_bytes, logical_bytes: 0 }
    }

    /// Stops an export whose time is over.
    pub fn check_time(&self, expired: bool) -> (r: Result<(), VolumeError>)
        ensures
            error::outcome(r) == checks::verdict(
                checks::when(
                    expired,
                    VolumeFailure::Timeout("directory volume snapshot timed out"@),
                ),
            ),
    {
        if expired {
            return Err(VolumeError::Timeout("directory volume snapshot timed out".to_owned()));
        }
        Ok(())
    }

    /// Accepts the next entry.
    pub fn accept(self, has_attributes: bool, kind: ExportKind) -> (r: Result<Self, VolumeError>)
        ensures
            match r {
                Ok(export) => {
                    &&& export_failure(
                        self.quota_bytes,
                        self.logical_bytes,
                        has_attributes,
                        kind,
                    ) is None
                    &&& export.quota_bytes == self.quota_bytes
                    &&& export.logical_bytes == self.logical_bytes + exported_bytes(kind)
                },
                Err(error) => export_failure(
                    self.quota_bytes,
                    self.logical_bytes,
                    has_attributes,
                    kind,
                ) == Some(error@),
            },
    {
        if has_attributes {
            return Err(
                VolumeError::Unsupported(
                    "directory snapshot does not support extended attributes".to_owned(),
                ),
            );
        }
        match kind {
            ExportKind::File { links, size, blocks } => {
                if links != 1 {
                    return Err(
                        VolumeError::Unsupported(
                            "directory snapshot does not support hard links".to_owned(),
                        ),
                    );
                }
                let taken: u128 = blocks as u128 * 512;
                if taken < size as u128 {
                    return Err(
                        VolumeError::Unsupported(
                            "directory snapshot does not support sparse files".to_owned(),
                        ),
                    );
                }
                let logical_bytes: u64 = match self.logical_bytes.checked_add(size) {
                    Some(sum) => sum,
                    None => return Err(VolumeError::Invalid("volume size overflow".to_owned())),
                };
                if logical_bytes > self.quota_bytes {
                    return Err(
                        VolumeError::Invalid(
                            "directory content exceeds its declared quota".to_owned(),
                        ),
                    );
                }
                Ok(ArchiveExport { quota_bytes: self.quota_bytes, logical_bytes })
            },
            ExportKind::Directory => Ok(self),
            ExportKind::Symlink => Ok(self),
            ExportKind::Other => Err(
                VolumeError::Unsupported("directory snapshot contains a special file".to_owned()),
            ),
        }
    }
}

/// An archive that is written up to a limit.
#[derive(Clone, Copy, Debug, PartialEq, Eq, Structural)]
pub struct ArchiveWriter {
    pub maximum: u64,
    pub bytes: u64,
}

impl ArchiveWriter {
    pub fn new(maximum: u64) -> (r: Self)
        ensures
            r.maximum == maximum,
            r.bytes == 0,
    {
        ArchiveWriter { maximum, bytes: 0 }
    }

    /// Refuses to write what does not fit.
    pub fn before_write(&self, length: usize) -> (r: Result<(), String>)
        ensures
            match r {
                Ok(()) => length == 0 || self.bytes + length <= self.maximum,
                Err(reason) => length > 0 && self.bytes + length > self.maximum && reason@
                    == "directory snapshot exceeds its archive limit"@,
            },
    {
        let remaining: u64 = if self.maximum >= self.bytes {
            self.maximum - self.bytes
        } else {
            0
        };
        if length as u64 > remaining {
            return Err("directory snapshot exceeds its archive limit".to_owned());
        }
        Ok(())
    }

    /// Counts what was written.
    pub fn after_write(self, written: usize) -> (r: Self)
        ensures
            r.maximum == self.maximum,
            r.bytes == (if self.bytes + written > u64::MAX {
                u64::MAX as int
            } else {
                self.bytes + written
            }),
    {
        let bytes: u64 = match self.bytes.checked_add(written as u64) {
            Some(bytes) => bytes,
            None => u64::MAX,
        };
        ArchiveWriter { maximum: self.maximum, bytes }
    }
}

/// Accepts the file of an archive before it is read.
pub fn check_archive_file(is_file: bool, length: u64, quota_bytes: u64) -> (r: Result<
    (),
    VolumeError,
>)
    ensures
        error::outcome(r) == checks::verdict(
            checks::when(
                !(is_file && 0 < length <= doubled(quota_bytes)),
                VolumeFailure::Integrity("directory snapshot is not a bounded regular file"@),
            ),
        ),
{
    if !is_file || length == 0 || length > archive_limit(quota_bytes) {
        return Err(
            VolumeError::Integrity("directory snapshot is not a bounded regular file".to_owned()),
        );
    }
    Ok(())
}

/// Accepts the file of an archive once it is open.
pub fn check_archive_open(is_file: bool) -> (r: Result<(), VolumeError>)
    ensures
        error::outcome(r) == checks::verdict(
            checks::when(
                !is_file,
                VolumeFailure::Integrity("directory snapshot source is not a regular file"@),
            ),
        ),
{
    if !is_file {
        return Err(
            VolumeError::Integrity("directory snapshot source is not a regular file".to_owned()),
        );
    }
    Ok(())
}

/// What an entry of an archive is.
#[derive(Clone, Copy, Debug, PartialEq, Eq, Structural)]
pub enum ArchiveKind {
    Regular,
    Directory,
    Symlink,
    Other,
}

/// A key of the extended metadata of an entry.
#[derive(Debug)]
pub enum ExtensionKey {
    Key(Vec<u8>),
    NotUtf8,
    Unreadable(VolumeError),
}

/// An entry of an archive.
#[derive(Debug)]
pub struct ArchiveEntry {
    pub path: Vec<u8>,
    pub kind: ArchiveKind,
    pub extensions: Vec<ExtensionKey>,
    pub link: Option<Vec<u8>>,
    pub size: u64,
}

/// Every component of a path leads down.
pub open spec fn leads_down(path: Seq<u8>) -> bool {
    &&& !(path.len() > 0 && path[0] == 47)
    &&& forall|i: int|
        0 <= i < paths::components(path).len() ==> layer::is_plain_component(
            #[trigger] paths::components(path)[i],
        )
}

/// The first `count` components of a path.
pub open spec fn ancestor(path: Seq<u8>, count: int) -> Seq<u8> {
    paths::spelled(paths::components(path).take(count))
}

/// Some directory above a path is one of `links`.
pub open spec fn lies_below(path: Seq<u8>, links: Set<Seq<u8>>) -> bool {
    exists|count: int|
        0 <= count < paths::components(path).len() && links.contains(
            #[trigger] ancestor(path, count),
        )
}

/// Why a key of extended metadata is refused.
pub open spec fn extension_failure(extension: ExtensionKey) -> Option<VolumeFailure> {
    match extension {
        ExtensionKey::Unreadable(error) => Some(error@),
        ExtensionKey::NotUtf8 => Some(
            VolumeFailure::Integrity("directory snapshot extended metadata is not UTF-8"@),
        ),
        ExtensionKey::Key(key) => checks::when(
            key@ != text::utf8("path"@) && key@ != text::utf8("linkpath"@),
            VolumeFailure::Unsupported(
                "directory snapshot contains unsupported extended metadata"@,
            ),
        ),
    }
}

/// Why the extended metadata of an entry are refused.
pub open spec fn extension_failures(extensions: Seq<ExtensionKey>) -> Seq<Option<VolumeFailure>> {
    Seq::new(extensions.len(), |i: int| extension_failure(extensions[i]))
}

/// Why the target of a symbolic link is refused.
pub open spec fn target_failure(link: Option<Seq<u8>>) -> Option<VolumeFailure> {
    match link {
        None => Some(VolumeFailure::Integrity("directory snapshot symlink has no target"@)),
        Some(target) => checks::when(
            is_excessive(target) || !leads_down(target),
            VolumeFailure::Integrity("directory snapshot symlink target is unsafe"@),
        ),
    }
}

/// What was seen of an archive.
#[verifier::ext_equal]
pub struct Seen {
    pub count: nat,
    pub paths: Set<Seq<u8>>,
    pub links: Set<Seq<u8>>,
    pub logical_bytes: nat,
}

/// The target of an entry, where there is one.
pub open spec fn target(entry: ArchiveEntry) -> Option<Seq<u8>> {
    match entry.link {
        Some(link) => Some(link@),
        None => None,
    }
}

/// Why an entry is refused behind what was seen of the archive.
pub open spec fn entry_failure(quota_bytes: u64, seen: Seen, entry: ArchiveEntry) -> Option<
    VolumeFailure,
> {
    checks::or(
        checks::when(
            seen.count >= MAXIMUM_ENTRIES,
            VolumeFailure::Invalid("directory snapshot has too many entries"@),
        ),
        checks::or(
            checks::when(
                is_excessive(entry.path@) || !leads_down(entry.path@) || lies_below(
                    entry.path@,
                    seen.links,
                ) || seen.paths.contains(paths::spelling(entry.path@)),
                VolumeFailure::Integrity("directory snapshot path is unsafe or duplicated"@),
            ),
            checks::or(
                checks::when(
                    entry.kind is Other,
                    VolumeFailure::Unsupported("directory snapshot contains an unsupported entry"@),
                ),
                checks::or(
                    checks::first(extension_failures(entry.extensions@)),
                    checks::or(
                        if entry.kind is Symlink {
                            target_failure(target(entry))
                        } else {
                            None
                        },
                        checks::or(
                            checks::when(
                                seen.logical_bytes + entry.size > u64::MAX,
                                VolumeFailure::Invalid("volume size overflow"@),
                            ),
                            checks::when(
                                seen.logical_bytes + entry.size > quota_bytes,
                                VolumeFailure::Invalid(
                                    "directory snapshot content exceeds its quota"@,
                                ),
                            ),
                        ),
                    ),
                ),
            ),
        ),
    )
}

/// What was seen of an archive with one more entry.
pub open spec fn with_entry(seen: Seen, entry: ArchiveEntry) -> Seen {
    Seen {
        count: seen.count + 1,
        paths: seen.paths.insert(paths::spelling(entry.path@)),
        links: if entry.kind is Symlink {
            seen.links.insert(paths::spelling(entry.path@))
        } else {
            seen.links
        },
        logical_bytes: seen.logical_bytes + entry.size as nat,
    }
}

/// Whether every component of a path leads down.
fn down(path: &[u8], parts: &Vec<Vec<u8>>) -> (r: bool)
    requires
        paths::strings(parts@) == paths::components(path@),
    ensures
        r == leads_down(path@),
{
    if path.len() > 0 && path[0] == 47 {
        return false;
    }
    let ghost all = paths::components(path@);
    proof {
        assert(paths::strings(parts@).len() == parts@.len());
    }
    let mut i: usize = 0;
    while i < parts.len()
        invariant
            i <= parts@.len() == all.len(),
            all == paths::components(path@),
            paths::strings(parts@) == all,
            forall|j: int| 0 <= j < i ==> layer::is_plain_component(#[trigger] all[j]),
        decreases parts@.len() - i,
    {
        proof {
            assert(paths::strings(parts@)[i as int] == parts@[i as int]@);
        }
        if !plain_component(parts[i].as_slice()) {
            proof {
                assert(!layer::is_plain_component(all[i as int]));
            }
            return false;
        }
        i += 1;
    }
    true
}

/// Whether some directory above a path is one of `links`.
fn below(path: &[u8], parts: &Vec<Vec<u8>>, links: &ByteSet) -> (r: bool)
    requires
        paths::strings(parts@) == paths::components(path@),
    ensures
        r == lies_below(path@, links@),
{
    let ghost all = paths::components(path@);
    proof {
        assert(paths::strings(parts@).len() == parts@.len());
    }
    let mut count: usize = 0;
    while count < parts.len()
        invariant
            count <= parts@.len() == all.len(),
            all == paths::components(path@),
            paths::strings(parts@) == all,
            forall|k: int| 0 <= k < count ==> !links@.contains(#[trigger] ancestor(path@, k)),
        decreases parts@.len() - count,
    {
        let above = spell(false, parts, count);
        proof {
            assert(above@ =~= ancestor(path@, count as int));
        }
        if links.contains(above.as_slice()) {
            return true;
        }
        count += 1;
    }
    false
}

/// Accepts the extended metadata of an entry.
fn check_extensions(extensions: &Vec<ExtensionKey>) -> (r: Result<(), usize>)
    ensures
        match r {
            Ok(()) => checks::first(extension_failures(extensions@)) is None,
            Err(at) => at < extensions@.len() && extension_failure(extensions@[at as int]) is Some
                && checks::first(extension_failures(extensions@)) == extension_failure(
                extensions@[at as int],
            ),
        },
{
    let ghost failures = extension_failures(extensions@);
    let mut i: usize = 0;
    while i < extensions.len()
        invariant
            i <= extensions@.len(),
            failures == extension_failures(extensions@),
            forall|j: int| 0 <= j < i ==> #[trigger] failures[j] is None,
        decreases extensions@.len() - i,
    {
        let accepted = match &extensions[i] {
            ExtensionKey::Key(key) => text::same_bytes(key.as_slice(), "path".as_bytes())
                || text::same_bytes(key.as_slice(), "linkpath".as_bytes()),
            ExtensionKey::NotUtf8 => false,
            ExtensionKey::Unreadable(_) => false,
        };
        if !accepted {
            proof {
                assert(failures[i as int] is Some);
                checks::lemma_first_at(failures, i as int);
            }
            return Err(i);
        }
        proof {
            assert(failures[i as int] is None);
        }
        i += 1;
    }
    proof {
        checks::lemma_first_none(failures);
    }
    Ok(())
}

/// Why the key at `at` is refused.
fn extension_error(extensions: Vec<ExtensionKey>, at: usize) -> (r: VolumeError)
    requires
        at < extensions@.len(),
        extension_failure(extensions@[at as int]) is Some,
    ensures
        extension_failure(extensions@[at as int]) == Some(r@),
{
    let mut extensions = extensions;
    let extension = extensions.swap_remove(at);
    match extension {
        ExtensionKey::Unreadable(error) => error,
        ExtensionKey::NotUtf8 => VolumeError::Integrity(
            "directory snapshot extended metadata is not UTF-8".to_owned(),
        ),
        ExtensionKey::Key(_) => VolumeError::Unsupported(
            "directory snapshot contains unsupported extended metadata".to_owned(),
        ),
    }
}

/// The audit of an archive that may hold `quota_bytes`.
pub struct ArchiveAudit {
    pub quota_bytes: u64,
    pub count: usize,
    pub paths: ByteSet,
    pub links: ByteSet,
    pub logical_bytes: u64,
}

impl View for ArchiveAudit {
    type V = Seen;

    open spec fn view(&self) -> Seen {
        Seen {
            count: self.count as nat,
            paths: self.paths@,
            links: self.links@,
            logical_bytes: self.logical_bytes as nat,
        }
    }
}

/// An archive of which nothing was seen.
pub open spec fn unseen() -> Seen {
    Seen { count: 0, paths: Set::empty(), links: Set::empty(), logical_bytes: 0 }
}

impl ArchiveAudit {
    pub fn new(quota_bytes: u64) -> (r: Self)
        ensures
            r@ == unseen(),
            r.quota_bytes == quota_bytes,
    {
        ArchiveAudit {
            quota_bytes,
            count: 0,
            paths: ByteSet::new(),
            links: ByteSet::new(),
            logical_bytes: 0,
        }
    }

    /// Stops an audit whose time is over.
    pub fn check_time(&self, expired: bool) -> (r: Result<(), VolumeError>)
        ensures
            error::outcome(r) == checks::verdict(
                checks::when(
                    expired,
                    VolumeFailure::Timeout("directory snapshot validation timed out"@),
                ),
            ),
    {
        if expired {
            return Err(VolumeError::Timeout("directory snapshot validation timed out".to_owned()));
        }
        Ok(())
    }

    /// Accepts the next entry.
    pub fn accept(self, entry: ArchiveEntry) -> (r: Result<Self, VolumeError>)
        ensures
            match r {
                Ok(audit) => {
                    &&& entry_failure(self.quota_bytes, self@, entry) is None
                    &&& audit@ == with_entry(self@, entry)
                    &&& audit.quota_bytes == self.quota_bytes
                },
                Err(error) => entry_failure(self.quota_bytes, self@, entry) == Some(error@),
            },
    {
        let ArchiveAudit { quota_bytes, count, mut paths, mut links, logical_bytes } = self;
        if count >= MAXIMUM_ENTRIES {
            return Err(VolumeError::Invalid("directory snapshot has too many entries".to_owned()));
        }
        let parts = component_list(entry.path.as_slice());
        let unsafe_path = excessive(entry.path.as_slice(), &parts) || !down(
            entry.path.as_slice(),
            &parts,
        ) || below(entry.path.as_slice(), &parts, &links);
        if unsafe_path {
            return Err(
                VolumeError::Integrity(
                    "directory snapshot path is unsafe or duplicated".to_owned(),
                ),
            );
        }
        let total: usize = parts.len();
        let name = spell(false, &parts, total);
        proof {
            let all = paths::strings(parts@);
            assert(all.len() == parts@.len());
            assert(all.take(total as int) =~= all);
            assert(name@ =~= paths::spelling(entry.path@));
        }
        if paths.contains(name.as_slice()) {
            return Err(
                VolumeError::Integrity(
                    "directory snapshot path is unsafe or duplicated".to_owned(),
                ),
            );
        }
        let ArchiveEntry { path: _, kind, extensions, link, size } = entry;
        let unsupported = match kind {
            ArchiveKind::Other => true,
            _ => false,
        };
        if unsupported {
            return Err(
                VolumeError::Unsupported(
                    "directory snapshot contains an unsupported entry".to_owned(),
                ),
            );
        }
        match check_extensions(&extensions) {
            Ok(()) => {},
            Err(at) => return Err(extension_error(extensions, at)),
        }
        let is_link = match kind {
            ArchiveKind::Symlink => true,
            _ => false,
        };
        if is_link {
            match link {
                None => {
                    return Err(
                        VolumeError::Integrity(
                            "directory snapshot symlink has no target".to_owned(),
                        ),
                    );
                },
                Some(target) => {
                    let steps = component_list(target.as_slice());
                    if excessive(target.as_slice(), &steps) || !down(target.as_slice(), &steps) {
                        return Err(
                            VolumeError::Integrity(
                                "directory snapshot symlink target is unsafe".to_owned(),
                            ),
                        );
                    }
                },
            }
        }
        let logical_bytes: u64 = match logical_bytes.checked_add(size) {
            Some(sum) => sum,
            None => return Err(VolumeError::Invalid("volume size overflow".to_owned())),
        };
        if logical_bytes > quota_bytes {
            return Err(
                VolumeError::Invalid("directory snapshot content exceeds its quota".to_owned()),
            );
        }
        if is_link {
            links.insert(text::copy_bytes(name.as_slice()));
        }
        paths.insert(name);
        Ok(ArchiveAudit { quota_bytes, count: count + 1, paths, links, logical_bytes })
    }
}

/// What was seen of an archive whose entries were all accepted.
pub open spec fn seen_of(entries: Seq<ArchiveEntry>) -> Seen
    decreases entries.len(),
{
    if entries.len() == 0 {
        unseen()
    } else {
        with_entry(seen_of(entries.drop_last()), entries.last())
    }
}

/// Every entry of an archive is accepted behind those before it.
pub open spec fn is_accepted(quota_bytes: u64, entries: Seq<ArchiveEntry>) -> bool
    decreases entries.len(),
{
    entries.len() == 0 || (is_accepted(quota_bytes, entries.drop_last()) && entry_failure(
        quota_bytes,
        seen_of(entries.drop_last()),
        entries.last(),
    ) is None)
}

/// The sizes of entries, together.
pub open spec fn total_size(entries: Seq<ArchiveEntry>) -> nat
    decreases entries.len(),
{
    if entries.len() == 0 {
        0
    } else {
        total_size(entries.drop_last()) + entries.last().size as nat
    }
}

/// An accepted archive keeps to its quota and to the limit of entries, no two of its entries
/// have one path, every path and every target leads down, and nothing is unpacked below a
/// symbolic link.
pub proof fn law_accepted_archives_stay_in_their_directory(
    quota_bytes: u64,
    entries: Seq<ArchiveEntry>,
    left: int,
    right: int,
)
    requires
        is_accepted(quota_bytes, entries),
        0 <= left < right < entries.len(),
    ensures
        total_size(entries) <= quota_bytes,
        entries.len() <= MAXIMUM_ENTRIES,
        paths::spelling(entries[left].path@) != paths::spelling(entries[right].path@),
        leads_down(entries[left].path@) && leads_down(entries[right].path@),
        entries[left].kind is Symlink ==> target(entries[left]) is Some && leads_down(
            target(entries[left])->0,
        ) && forall|count: int|
            0 <= count < paths::components(entries[right].path@).len() ==> #[trigger] ancestor(
                entries[right].path@,
                count,
            ) != paths::spelling(entries[left].path@),
    decreases entries.len(),
{
    let before = entries.drop_last();
    lemma_seen(quota_bytes, entries);
    lemma_seen(quota_bytes, before);
    if right < entries.len() - 1 {
        assert(before[left] == entries[left] && before[right] == entries[right]);
        law_accepted_archives_stay_in_their_directory(quota_bytes, before, left, right);
    } else {
        assert(before[left] == entries[left]);
        lemma_noted(quota_bytes, before, left);
        let seen = seen_of(before);
        if entries[left].kind is Symlink {
            assert forall|count: int|
                0 <= count < paths::components(
                    entries[right].path@,
                ).len() implies #[trigger] ancestor(entries[right].path@, count)
                != paths::spelling(entries[left].path@) by {
                assert(!lies_below(entries[right].path@, seen.links));
            }
        }
    }
}

/// What was seen of an accepted archive is bounded.
proof fn lemma_seen(quota_bytes: u64, entries: Seq<ArchiveEntry>)
    requires
        is_accepted(quota_bytes, entries),
    ensures
        seen_of(entries).count == entries.len(),
        seen_of(entries).count <= MAXIMUM_ENTRIES,
        seen_of(entries).logical_bytes == total_size(entries),
        entries.len() > 0 ==> total_size(entries) <= quota_bytes,
    decreases entries.len(),
{
    if entries.len() > 0 {
        lemma_seen(quota_bytes, entries.drop_last());
    }
}

/// An accepted entry is noted, and leads down.
proof fn lemma_noted(quota_bytes: u64, entries: Seq<ArchiveEntry>, at: int)
    requires
        is_accepted(quota_bytes, entries),
        0 <= at < entries.len(),
    ensures
        seen_of(entries).paths.contains(paths::spelling(entries[at].path@)),
        leads_down(entries[at].path@),
        entries[at].kind is Symlink ==> seen_of(entries).links.contains(
            paths::spelling(entries[at].path@),
        ) && target(entries[at]) is Some && leads_down(target(entries[at])->0),
    decreases entries.len(),
{
    if at < entries.len() - 1 {
        assert(entries.drop_last()[at] == entries[at]);
        lemma_noted(quota_bytes, entries.drop_last(), at);
    }
}

/// A path is excessive exactly where it has more than 4096 bytes or more than 64 components, the
/// root among them.
pub proof fn law_excessive_paths_are_long_or_deep(path: Seq<u8>)
    ensures
        is_excessive(path) <==> path.len() > 4096 || (if path.len() > 0 && path[0] == 47 {
            paths::components(path).len() + 1 > 64
        } else {
            paths::components(path).len() > 64
        }),
{
}

/// A path is collected exactly where it is not excessive and fewer than a hundred thousand came
/// before it.
pub proof fn law_collected_volume_paths_are_bounded(count: usize, relative: Seq<u8>)
    ensures
        collect_failure(count, relative) is None <==> !is_excessive(relative) && count < 100_000,
        is_excessive(relative) ==> collect_failure(count, relative) == Some(
            VolumeFailure::Invalid("volume snapshot path exceeds its length or depth limit"@),
        ),
{
}

/// Twice the size, as far as that can be written.
pub proof fn law_doubled_sizes_saturate(size: u64)
    ensures
        size <= 0x7fff_ffff_ffff_ffff ==> doubled(size) == size + size,
        size > 0x7fff_ffff_ffff_ffff ==> doubled(size) == 0xffff_ffff_ffff_ffff,
{
}

/// A file is exported exactly where it has no extended attributes, is no special file, and, a
/// regular one, has one link, all its blocks, and room in the quota.
pub proof fn law_exported_files_are_plain(
    quota_bytes: u64,
    logical_bytes: u64,
    has_attributes: bool,
    kind: ExportKind,
)
    ensures
        export_failure(quota_bytes, logical_bytes, has_attributes, kind) is None <==> {
            &&& !has_attributes
            &&& match kind {
                ExportKind::File { links, size, blocks } => links == 1 && blocks * 512 >= size
                    && logical_bytes + size <= quota_bytes,
                ExportKind::Directory => true,
                ExportKind::Symlink => true,
                ExportKind::Other => false,
            }
        },
        kind matches ExportKind::File { size, .. } ==> exported_bytes(kind) == size,
        !(kind is File) ==> exported_bytes(kind) == 0,
{
}

/// A path leads down exactly where it is not absolute and each of its components is a name.
pub proof fn law_paths_lead_down_by_names(path: Seq<u8>)
    ensures
        leads_down(path) <==> {
            &&& path.len() == 0 || path[0] != 47
            &&& forall|i: int|
                0 <= i < paths::components(path).len() ==> {
                    let component = #[trigger] paths::components(path)[i];
                    &&& component.len() > 0
                    &&& component != seq![46u8]
                    &&& component != seq![46u8, 46u8]
                }
        },
{
    if path.len() == 0 || path[0] != 47 {
        if forall|i: int|
            0 <= i < paths::components(path).len() ==> {
                let component = #[trigger] paths::components(path)[i];
                &&& component.len() > 0
                &&& component != seq![46u8]
                &&& component != seq![46u8, 46u8]
            } {
            assert forall|i: int| 0 <= i < paths::components(path).len() implies layer::is_plain_component(
                #[trigger] paths::components(path)[i],
            ) by {}
        }
    }
}

/// A path lies below a link exactly where some of its components, from the front but not all, spell
/// one.
pub proof fn law_paths_below_links(path: Seq<u8>, links: Set<Seq<u8>>)
    ensures
        lies_below(path, links) <==> exists|count: int|
            0 <= count < paths::components(path).len() && links.contains(
                #[trigger] paths::spelled(paths::components(path).take(count)),
            ),
{
    if lies_below(path, links) {
        let count = choose|count: int|
            0 <= count < paths::components(path).len() && links.contains(
                #[trigger] ancestor(path, count),
            );
        assert(links.contains(paths::spelled(paths::components(path).take(count))));
    }
    if exists|count: int|
        0 <= count < paths::components(path).len() && links.contains(
            #[trigger] paths::spelled(paths::components(path).take(count)),
        ) {
        let count = choose|count: int|
            0 <= count < paths::components(path).len() && links.contains(
                #[trigger] paths::spelled(paths::components(path).take(count)),
            );
        assert(links.contains(ancestor(path, count)));
    }
}

/// Of extended metadata only long paths and long link targets are known.
pub proof fn law_extended_metadata_is_of_paths(extension: ExtensionKey)
    ensures
        extension_failure(extension) is None <==> (extension matches ExtensionKey::Key(key) && (
        key@ == text::utf8("path"@) || key@ == text::utf8("linkpath"@))),
{
}

/// A link has a target that is not excessive and leads down.
pub proof fn law_link_targets_lead_down(link: Option<Seq<u8>>)
    ensures
        target_failure(link) is None <==> (link matches Some(target) && !is_excessive(target)
            && leads_down(target)),
{
}

/// An entry is accepted exactly where there is room for it, its path is new, leads down and lies
/// below no link, its kind and extensions are known, its target is safe, and its bytes fit.
pub proof fn law_accepted_entries_are_safe(quota_bytes: u64, seen: Seen, entry: ArchiveEntry)
    ensures
        entry_failure(quota_bytes, seen, entry) is None <==> {
            &&& seen.count < 100_000
            &&& !is_excessive(entry.path@)
            &&& leads_down(entry.path@)
            &&& !lies_below(entry.path@, seen.links)
            &&& !seen.paths.contains(paths::spelling(entry.path@))
            &&& !(entry.kind is Other)
            &&& forall|i: int|
                0 <= i < entry.extensions@.len() ==> extension_failure(
                    #[trigger] entry.extensions@[i],
                ) is None
            &&& entry.kind is Symlink ==> target_failure(target(entry)) is None
            &&& seen.logical_bytes + entry.size <= quota_bytes
        },
{
    let failures = extension_failures(entry.extensions@);
    checks::lemma_first(failures);
    if forall|i: int| 0 <= i < failures.len() ==> #[trigger] failures[i] is None {
        assert forall|i: int| 0 <= i < entry.extensions@.len() implies extension_failure(
            #[trigger] entry.extensions@[i],
        ) is None by {
            assert(failures[i] is None);
        }
    }
    if forall|i: int|
        0 <= i < entry.extensions@.len() ==> extension_failure(#[trigger] entry.extensions@[i])
            is None {
        assert forall|i: int| 0 <= i < failures.len() implies #[trigger] failures[i] is None by {
            assert(extension_failure(entry.extensions@[i]) is None);
        }
    }
}

/// An entry that was accepted is known from now on: its path, its bytes, and that it is a link.
pub proof fn law_accepted_entries_are_remembered(seen: Seen, entry: ArchiveEntry, path: Seq<u8>)
    ensures
        with_entry(seen, entry).count == seen.count + 1,
        with_entry(seen, entry).logical_bytes == seen.logical_bytes + entry.size,
        with_entry(seen, entry).paths.contains(path) <==> seen.paths.contains(path) || path
            == paths::spelling(entry.path@),
        with_entry(seen, entry).links.contains(path) <==> seen.links.contains(path) || (entry.kind
            is Symlink && path == paths::spelling(entry.path@)),
        match entry.link {
            Some(link) => target(entry) == Some(link@),
            None => target(entry) is None,
        },
{
}

/// An archive has at most a hundred thousand entries, of paths of at most four kibibytes and
/// sixty-four components.
pub proof fn law_volume_archives_are_limited()
    ensures
        MAXIMUM_ENTRIES == 100_000,
        MAXIMUM_PATH_BYTES == 4 * 1024,
        MAXIMUM_PATH_DEPTH == 64,
{
}

/// Each refusal of an archive is of its kind.
pub proof fn law_refused_archives_say_why(
    quota_bytes: u64,
    logical_bytes: u64,
    has_attributes: bool,
    kind: ExportKind,
    seen: Seen,
    entry: ArchiveEntry,
    link: Option<Seq<u8>>,
)
    ensures
        has_attributes ==> export_failure(quota_bytes, logical_bytes, has_attributes, kind) == Some(
            VolumeFailure::Unsupported("directory snapshot does not support extended attributes"@),
        ),
        !has_attributes && kind is Other ==> export_failure(
            quota_bytes,
            logical_bytes,
            has_attributes,
            kind,
        ) == Some(VolumeFailure::Unsupported("directory snapshot contains a special file"@)),
        !has_attributes ==> (kind matches ExportKind::File { links, .. } ==> (links != 1
            ==> export_failure(quota_bytes, logical_bytes, has_attributes, kind) == Some(
            VolumeFailure::Unsupported("directory snapshot does not support hard links"@),
        ))),
        !has_attributes ==> (kind matches ExportKind::File { links, size, blocks } ==> (links == 1
            && blocks * 512 < size ==> export_failure(
            quota_bytes,
            logical_bytes,
            has_attributes,
            kind,
        ) == Some(VolumeFailure::Unsupported("directory snapshot does not support sparse files"@)))),
        !has_attributes ==> (kind matches ExportKind::File { links, size, blocks } ==> (links == 1
            && blocks * 512 >= size && quota_bytes < logical_bytes + size <= 0xffff_ffff_ffff_ffff
            ==> export_failure(quota_bytes, logical_bytes, has_attributes, kind) == Some(
            VolumeFailure::Invalid("directory content exceeds its declared quota"@),
        ))),
        link is None ==> target_failure(link) == Some(
            VolumeFailure::Integrity("directory snapshot symlink has no target"@),
        ),
        link is Some ==> (target_failure(link) matches Some(failure) ==> failure
            == VolumeFailure::Integrity("directory snapshot symlink target is unsafe"@)),
        seen.count >= 100_000 ==> entry_failure(quota_bytes, seen, entry) == Some(
            VolumeFailure::Invalid("directory snapshot has too many entries"@),
        ),
        seen.count < 100_000 && (is_excessive(entry.path@) || !leads_down(entry.path@)
            || lies_below(entry.path@, seen.links) || seen.paths.contains(
            paths::spelling(entry.path@),
        )) ==> entry_failure(quota_bytes, seen, entry) == Some(
            VolumeFailure::Integrity("directory snapshot path is unsafe or duplicated"@),
        ),
{
}

} // verus!
