//! The audit of image layers, entry by entry.

use crate::byteset::ByteSet;
use crate::checks;
use crate::lines;
use crate::lines::lossy_text;
use crate::oci::error;
use crate::oci::error::{SandboxError, SandboxFailure};
use crate::oci::provider::config::ImageLimits;
use crate::text;
use crate::text::{join2, join3, join5};
use vstd::prelude::*;

verus! {

/// What an archive entry is.
#[derive(Clone, Copy, Debug, PartialEq, Eq, Structural)]
pub enum EntryKind {
    File,
    Directory,
    Symlink,
    HardLink,
    Other,
}

/// What the archive says of an entry. A part that cannot be read holds the reason.
#[derive(Debug)]
pub struct LayerEntry {
    pub path: Vec<u8>,
    pub kind: EntryKind,
    pub size: Result<u64, String>,
    pub link: Result<Option<Vec<u8>>, String>,
    pub extensions: Vec<Result<Vec<u8>, String>>,
}

/// What the layers of an image have used so far.
#[derive(Clone, Copy, Debug, PartialEq, Eq, Structural)]
pub struct LayerBudget {
    pub entries: usize,
    pub logical_bytes: u64,
    pub decoded_bytes: u64,
}

impl Default for LayerBudget {
    fn default() -> (r: Self)
        ensures
            r.entries == 0,
            r.logical_bytes == 0,
            r.decoded_bytes == 0,
    {
        LayerBudget { entries: 0, logical_bytes: 0, decoded_bytes: 0 }
    }
}

/// How a layer is compressed.
#[derive(Clone, Copy, Debug, PartialEq, Eq, Structural)]
pub enum LayerCoding {
    Plain,
    Gzip,
    Zstd,
}

/// The compression that a media type announces.
pub open spec fn coding_of(media_type: Seq<char>) -> Option<LayerCoding> {
    if media_type == "application/vnd.oci.image.layer.v1.tar"@ || media_type
        == "application/vnd.docker.image.rootfs.diff.tar"@ {
        Some(LayerCoding::Plain)
    } else if media_type == "application/vnd.oci.image.layer.v1.tar+gzip"@ || media_type
        == "application/vnd.docker.image.rootfs.diff.tar.gzip"@ {
        Some(LayerCoding::Gzip)
    } else if media_type == "application/vnd.oci.image.layer.v1.tar+zstd"@ {
        Some(LayerCoding::Zstd)
    } else {
        None
    }
}

/// Reads the compression that a media type announces.
pub fn layer_coding(media_type: &str) -> (r: Result<LayerCoding, SandboxError>)
    ensures
        match r {
            Ok(coding) => coding_of(media_type@) == Some(coding),
            Err(error) => coding_of(media_type@) is None && error@
                == SandboxFailure::ImageProvider("OCI layer compression is unsupported"@),
        },
{
    if text::same(media_type, "application/vnd.oci.image.layer.v1.tar") || text::same(
        media_type,
        "application/vnd.docker.image.rootfs.diff.tar",
    ) {
        Ok(LayerCoding::Plain)
    } else if text::same(media_type, "application/vnd.oci.image.layer.v1.tar+gzip") || text::same(
        media_type,
        "application/vnd.docker.image.rootfs.diff.tar.gzip",
    ) {
        Ok(LayerCoding::Gzip)
    } else if text::same(media_type, "application/vnd.oci.image.layer.v1.tar+zstd") {
        Ok(LayerCoding::Zstd)
    } else {
        Err(SandboxError::ImageProvider("OCI layer compression is unsupported".to_owned()))
    }
}

/// How many bytes the next layer may decode to.
pub fn decoded_allowance(limits: &ImageLimits, budget: &LayerBudget) -> (r: Result<
    u64,
    SandboxError,
>)
    ensures
        match r {
            Ok(allowance) => allowance == limits.maximum_expanded_bytes - budget.decoded_bytes,
            Err(error) => limits.maximum_expanded_bytes < budget.decoded_bytes && error@
                == SandboxFailure::ImageProvider("image exceeds the decoded byte limit"@),
        },
{
    if limits.maximum_expanded_bytes < budget.decoded_bytes {
        return Err(SandboxError::ImageProvider("image exceeds the decoded byte limit".to_owned()));
    }
    Ok(limits.maximum_expanded_bytes - budget.decoded_bytes)
}

/// A failure to read the archive.
pub open spec fn archive_failure(reason: Seq<char>) -> SandboxFailure {
    SandboxFailure::ImageProvider("validate OCI layer archive: "@ + reason)
}

/// A failure to read the archive.
pub fn layer_error(reason: &str) -> (r: SandboxError)
    ensures
        r@ == archive_failure(reason@),
{
    SandboxError::ImageProvider(join2("validate OCI layer archive: ", reason))
}

/// Refuses to go on behind the deadline.
pub fn check_deadline(expired: bool) -> (r: Result<(), SandboxError>)
    ensures
        error::outcome(r) == checks::verdict(
            checks::when(expired, SandboxFailure::Timeout("validate OCI layer archive"@)),
        ),
{
    if expired {
        return Err(SandboxError::Timeout("validate OCI layer archive".to_owned()));
    }
    Ok(())
}

/// Refuses to look at the next layer behind the deadline of the image.
pub fn check_image_deadline(expired: bool) -> (r: Result<(), SandboxError>)
    ensures
        error::outcome(r) == checks::verdict(
            checks::when(expired, SandboxFailure::Timeout("validate OCI image layers"@)),
        ),
{
    if expired {
        return Err(SandboxError::Timeout("validate OCI image layers".to_owned()));
    }
    Ok(())
}

/// Decoded bytes that are counted as they pass.
#[derive(Clone, Copy, Debug, PartialEq, Eq, Structural)]
pub struct DecodedMeter {
    pub bytes: u64,
    pub maximum: u64,
}

/// Why a read of `count` bytes behind `bytes` is refused.
pub open spec fn decoded_failure(bytes: u64, count: nat, maximum: u64) -> Option<Seq<char>> {
    checks::or(
        checks::when(bytes + count > u64::MAX, "decoded OCI layer size overflow"@),
        checks::when(
            bytes + count > maximum,
            "decoded OCI layer exceeds the expanded byte limit"@,
        ),
    )
}

impl DecodedMeter {
    /// Refuses to read behind the deadline.
    pub fn before_read(&self, expired: bool) -> (r: Result<(), String>)
        ensures
            r is Err <==> expired,
            r matches Err(reason) ==> reason@ == "OCI layer validation deadline exceeded"@,
    {
        if expired {
            return Err("OCI layer validation deadline exceeded".to_owned());
        }
        Ok(())
    }

    /// Counts a read.
    pub fn after_read(self, count: usize) -> (r: Result<Self, String>)
        ensures
            match r {
                Ok(meter) => {
                    &&& decoded_failure(self.bytes, count as nat, self.maximum) is None
                    &&& meter.bytes == self.bytes + count
                    &&& meter.maximum == self.maximum
                },
                Err(reason) => decoded_failure(self.bytes, count as nat, self.maximum) == Some(
                    reason@,
                ),
            },
    {
        let bytes: u64 = match self.bytes.checked_add(count as u64) {
            Some(bytes) => bytes,
            None => return Err("decoded OCI layer size overflow".to_owned()),
        };
        if bytes > self.maximum {
            return Err("decoded OCI layer exceeds the expanded byte limit".to_owned());
        }
        Ok(DecodedMeter { bytes, maximum: self.maximum })
    }
}

/// A path without the slash that directories may end in.
pub open spec fn stripped(path: Seq<u8>) -> Seq<u8> {
    if path.len() > 0 && path.last() == 47 {
        path.drop_last()
    } else {
        path
    }
}

/// A component that leads neither nowhere nor up.
pub open spec fn is_plain_component(component: Seq<u8>) -> bool {
    &&& component.len() > 0
    &&& component != seq![46u8]
    &&& component != seq![46u8, 46u8]
}

/// The root itself, or plain components below it.
pub open spec fn is_relative(path: Seq<u8>, maximum: usize) -> bool {
    ||| path == seq![46u8]
    ||| {
        &&& 0 < path.len() <= maximum
        &&& forall|i: int|
            0 <= i < text::split(path, 47).len() ==> is_plain_component(
                #[trigger] text::split(path, 47)[i],
            )
    }
}

/// Why a path of a layer is refused.
pub open spec fn path_failure(path: Seq<u8>, maximum: usize, kind: Seq<char>) -> Option<
    SandboxFailure,
> {
    checks::when(
        !is_relative(stripped(path), maximum),
        SandboxFailure::ImageProvider(
            "OCI layer "@ + kind + " `"@ + lines::lossy(stripped(path))
                + "` is not relative and normalized"@,
        ),
    )
}

/// Whether a component leads neither nowhere nor up.
pub fn plain_component(component: &[u8]) -> (r: bool)
    ensures
        r == is_plain_component(component@),
{
    let length: usize = component.len();
    proof {
        if length == 1 && component@[0] == 46 {
            assert(component@ =~= seq![46u8]);
        }
        if length == 2 && component@[0] == 46 && component@[1] == 46 {
            assert(component@ =~= seq![46u8, 46u8]);
        }
    }
    length > 0 && !(length == 1 && component[0] == 46) && !(length == 2 && component[0] == 46
        && component[1] == 46)
}

fn relative(path: &[u8], maximum: usize) -> (r: bool)
    ensures
        r == is_relative(path@, maximum),
{
    if path.len() == 1 && path[0] == 46 {
        proof {
            assert(path@ =~= seq![46u8]);
        }
        return true;
    }
    if path.len() == 0 || path.len() > maximum {
        return false;
    }
    let parts = text::pieces(path, 47);
    let ghost all = text::split(path@, 47);
    let mut i: usize = 0;
    while i < parts.len()
        invariant
            i <= parts@.len(),
            text::slices(parts@) == all,
            all == text::split(path@, 47),
            path@ != seq![46u8],
            forall|j: int| 0 <= j < i ==> is_plain_component(#[trigger] all[j]),
        decreases parts@.len() - i,
    {
        proof {
            assert(text::slices(parts@)[i as int] == parts@[i as int]@);
            assert(all[i as int] == parts@[i as int]@);
        }
        if !plain_component(parts[i]) {
            return false;
        }
        i += 1;
    }
    true
}

/// The path of an entry, if it is relative and normalized.
pub fn normalized_path(bytes: &[u8], maximum: usize, kind: &str) -> (r: Result<
    Vec<u8>,
    SandboxError,
>)
    ensures
        match r {
            Ok(path) => path_failure(bytes@, maximum, kind@) is None && path@ == stripped(bytes@),
            Err(error) => path_failure(bytes@, maximum, kind@) == Some(error@),
        },
{
    let mut length: usize = bytes.len();
    if length > 0 && bytes[length - 1] == 47 {
        length -= 1;
    }
    let path = vstd::slice::slice_subrange(bytes, 0, length);
    proof {
        assert(path@ =~= stripped(bytes@));
    }
    if !relative(path, maximum) {
        let shown = lossy_text(path);
        return Err(
            SandboxError::ImageProvider(
                join5(
                    "OCI layer ",
                    kind,
                    " `",
                    shown.as_str(),
                    "` is not relative and normalized",
                ),
            ),
        );
    }
    Ok(text::copy_bytes(path))
}

/// The last component of a path.
pub open spec fn file_name(path: Seq<u8>) -> Seq<u8> {
    path.skip(text::find_last(path, 47) + 1)
}

/// `.wh.` and a name: the mark of a removed file.
pub open spec fn is_whiteout_name(name: Seq<u8>) -> bool {
    name.len() > 4 && name[0] == 46 && name[1] == 119 && name[2] == 104 && name[3] == 46
}

/// Whether a path marks a removed file.
pub fn is_whiteout(path: &[u8]) -> (r: bool)
    ensures
        r == is_whiteout_name(file_name(path@)),
{
    let length: usize = path.len();
    let start: usize = match text::find_last_byte(path, 47) {
        Some(at) => at + 1,
        None => 0,
    };
    let name = vstd::slice::slice_subrange(path, start, length);
    proof {
        assert(name@ =~= file_name(path@));
    }
    name.len() > 4 && name[0] == 46 && name[1] == 119 && name[2] == 104 && name[3] == 46
}

/// An archive extension that a root file system must not carry.
pub open spec fn is_foreign_extension(key: Seq<u8>) -> bool {
    ||| text::begins_with(key, text::utf8("SCHILY.xattr."@))
    ||| text::begins_with(key, text::utf8("LIBARCHIVE.xattr."@))
    ||| text::begins_with(key, text::utf8("GNU.sparse."@))
}

/// Why an extension is refused.
pub open spec fn extension_failure(extension: Result<Vec<u8>, String>) -> Option<SandboxFailure> {
    match extension {
        Err(reason) => Some(archive_failure(reason@)),
        Ok(key) => checks::when(
            is_foreign_extension(key@),
            SandboxFailure::ImageProvider(
                "OCI layer contains extended attributes or sparse metadata"@,
            ),
        ),
    }
}

pub open spec fn extension_failures(extensions: Seq<Result<Vec<u8>, String>>) -> Seq<
    Option<SandboxFailure>,
> {
    Seq::new(extensions.len(), |i: int| extension_failure(extensions[i]))
}

/// Refuses extended attributes and sparse files.
pub fn reject_extensions(extensions: &Vec<Result<Vec<u8>, String>>) -> (r: Result<
    (),
    SandboxError,
>)
    ensures
        error::outcome(r) == checks::verdict(checks::first(extension_failures(extensions@))),
{
    let ghost failures = extension_failures(extensions@);
    let mut i: usize = 0;
    while i < extensions.len()
        invariant
            i <= extensions@.len(),
            failures == extension_failures(extensions@),
            forall|j: int| 0 <= j < i ==> #[trigger] failures[j] is None,
        decreases extensions@.len() - i,
    {
        proof {
            assert(failures[i as int] == extension_failure(extensions@[i as int]));
        }
        match &extensions[i] {
            Err(reason) => {
                proof {
                    checks::lemma_first_at(failures, i as int);
                }
                return Err(layer_error(reason.as_str()));
            },
            Ok(key) => {
                if text::bytes_begin_with(key.as_slice(), "SCHILY.xattr.".as_bytes())
                    || text::bytes_begin_with(key.as_slice(), "LIBARCHIVE.xattr.".as_bytes())
                    || text::bytes_begin_with(key.as_slice(), "GNU.sparse.".as_bytes()) {
                    proof {
                        checks::lemma_first_at(failures, i as int);
                    }
                    return Err(
                        SandboxError::ImageProvider(
                            "OCI layer contains extended attributes or sparse metadata".to_owned(),
                        ),
                    );
                }
            },
        }
        i += 1;
    }
    proof {
        checks::lemma_first_none(failures);
    }
    Ok(())
}

impl LayerEntry {
    /// The path by which the audit knows the entry.
    pub open spec fn name(self) -> Seq<u8> {
        stripped(self.path@)
    }

    pub open spec fn marks_removal(self) -> bool {
        is_whiteout_name(file_name(self.name()))
    }

    /// The bytes that the entry adds to the root file system.
    pub open spec fn content(self) -> nat {
        if self.kind is File && !self.marks_removal() && self.size is Ok {
            self.size->Ok_0 as nat
        } else {
            0
        }
    }
}

/// Why the target of a link, or the kind of an entry, is refused.
pub open spec fn link_failure(limits: ImageLimits, entry: LayerEntry) -> Option<SandboxFailure> {
    match entry.kind {
        EntryKind::Symlink | EntryKind::HardLink => match entry.link {
            Err(reason) => Some(archive_failure(reason@)),
            Ok(None) => Some(SandboxFailure::ImageProvider("OCI link omits its target"@)),
            Ok(Some(target)) => if entry.kind is HardLink {
                path_failure(target@, limits.maximum_path_bytes, "hard-link target"@)
            } else {
                checks::when(
                    !(0 < target@.len() <= limits.maximum_path_bytes),
                    SandboxFailure::ImageProvider("OCI symbolic-link target is invalid"@),
                )
            },
        },
        EntryKind::File | EntryKind::Directory => None,
        EntryKind::Other => Some(
            SandboxFailure::ImageProvider(
                "OCI layer contains unsupported entry `"@ + lines::lossy(entry.name()) + "`"@,
            ),
        ),
    }
}

/// Why an entry is refused for what it is.
pub open spec fn shape_failure(limits: ImageLimits, entry: LayerEntry) -> Option<SandboxFailure> {
    checks::or(
        checks::first(extension_failures(entry.extensions@)),
        match entry.size {
            Err(reason) => Some(archive_failure(reason@)),
            Ok(size) => checks::or(
                checks::when(
                    entry.name() == seq![46u8] && !(entry.kind is Directory),
                    SandboxFailure::ImageProvider("OCI root entry is not a directory"@),
                ),
                checks::or(
                    checks::when(
                        entry.marks_removal() && (!(entry.kind is File) || size != 0),
                        SandboxFailure::ImageProvider(
                            "OCI whiteout is not an empty regular file"@,
                        ),
                    ),
                    link_failure(limits, entry),
                ),
            ),
        },
    )
}

/// Why an entry is refused behind others that used `budget` and have the paths `seen`.
pub open spec fn entry_failure(
    limits: ImageLimits,
    budget: LayerBudget,
    seen: Set<Seq<u8>>,
    entry: LayerEntry,
) -> Option<SandboxFailure> {
    checks::or(
        path_failure(entry.path@, limits.maximum_path_bytes, "path"@),
        checks::or(
            checks::when(
                seen.contains(entry.name()),
                SandboxFailure::ImageProvider(
                    "OCI layer repeats path `"@ + lines::lossy(entry.name()) + "`"@,
                ),
            ),
            checks::or(
                checks::when(
                    budget.entries == usize::MAX,
                    SandboxFailure::ImageProvider("layer entry count overflow"@),
                ),
                checks::or(
                    checks::when(
                        budget.entries + 1 > limits.maximum_entries,
                        SandboxFailure::ImageProvider("image exceeds the layer entry limit"@),
                    ),
                    checks::or(
                        shape_failure(limits, entry),
                        checks::or(
                            checks::when(
                                budget.logical_bytes + entry.content() > u64::MAX,
                                SandboxFailure::ImageProvider("expanded layer size overflow"@),
                            ),
                            checks::when(
                                entry.kind is File && !entry.marks_removal()
                                    && budget.logical_bytes + entry.content()
                                    > limits.maximum_expanded_bytes,
                                SandboxFailure::ImageProvider(
                                    "image exceeds the expanded byte limit"@,
                                ),
                            ),
                        ),
                    ),
                ),
            ),
        ),
    )
}

fn check_shape(limits: &ImageLimits, entry: &LayerEntry, name: &Vec<u8>, whiteout: bool) -> (r:
    Result<u64, SandboxError>)
    requires
        name@ == entry.name(),
        whiteout == entry.marks_removal(),
    ensures
        match r {
            Ok(size) => shape_failure(*limits, *entry) is None && entry.size == Ok::<u64, String>(
                size,
            ),
            Err(error) => shape_failure(*limits, *entry) == Some(error@),
        },
{
    match reject_extensions(&entry.extensions) {
        Ok(()) => {},
        Err(error) => return Err(error),
    }
    let size: u64 = match &entry.size {
        Ok(size) => *size,
        Err(reason) => return Err(layer_error(reason.as_str())),
    };
    let root = name.len() == 1 && name[0] == 46;
    proof {
        if root {
            assert(name@ =~= seq![46u8]);
        }
    }
    let directory = match entry.kind {
        EntryKind::Directory => true,
        _ => false,
    };
    let file = match entry.kind {
        EntryKind::File => true,
        _ => false,
    };
    if root && !directory {
        return Err(SandboxError::ImageProvider("OCI root entry is not a directory".to_owned()));
    }
    if whiteout && (!file || size != 0) {
        return Err(
            SandboxError::ImageProvider("OCI whiteout is not an empty regular file".to_owned()),
        );
    }
    match entry.kind {
        EntryKind::Symlink | EntryKind::HardLink => {
            let target = match &entry.link {
                Err(reason) => return Err(layer_error(reason.as_str())),
                Ok(None) => {
                    return Err(SandboxError::ImageProvider("OCI link omits its target".to_owned()));
                },
                Ok(Some(target)) => target,
            };
            match entry.kind {
                EntryKind::HardLink => {
                    match normalized_path(
                        target.as_slice(),
                        limits.maximum_path_bytes,
                        "hard-link target",
                    ) {
                        Ok(_) => {},
                        Err(error) => return Err(error),
                    }
                },
                _ => {
                    if target.len() == 0 || target.len() > limits.maximum_path_bytes {
                        return Err(
                            SandboxError::ImageProvider(
                                "OCI symbolic-link target is invalid".to_owned(),
                            ),
                        );
                    }
                },
            }
        },
        EntryKind::File | EntryKind::Directory => {},
        EntryKind::Other => {
            let shown = lossy_text(name.as_slice());
            return Err(
                SandboxError::ImageProvider(
                    join3("OCI layer contains unsupported entry `", shown.as_str(), "`"),
                ),
            );
        },
    }
    Ok(size)
}

/// The audit of one layer.
pub struct LayerAudit {
    pub budget: LayerBudget,
    pub paths: ByteSet,
}

impl LayerAudit {
    /// Starts behind the layers that used `budget`.
    pub fn new(budget: LayerBudget) -> (r: Self)
        ensures
            r.budget == budget,
            r.paths@ == Set::<Seq<u8>>::empty(),
    {
        LayerAudit { budget, paths: ByteSet::new() }
    }

    /// Admits the next entry, or says why the layer is refused.
    pub fn accept(self, entry: &LayerEntry, limits: &ImageLimits) -> (r: Result<Self, SandboxError>)
        ensures
            match r {
                Ok(audit) => {
                    &&& entry_failure(*limits, self.budget, self.paths@, *entry) is None
                    &&& audit.paths@ == self.paths@.insert(entry.name())
                    &&& audit.budget.entries == self.budget.entries + 1
                    &&& audit.budget.logical_bytes == self.budget.logical_bytes + entry.content()
                    &&& audit.budget.decoded_bytes == self.budget.decoded_bytes
                },
                Err(error) => entry_failure(*limits, self.budget, self.paths@, *entry) == Some(
                    error@,
                ),
            },
    {
        let LayerAudit { budget, mut paths } = self;
        let name = match normalized_path(
            entry.path.as_slice(),
            limits.maximum_path_bytes,
            "path",
        ) {
            Ok(name) => name,
            Err(error) => return Err(error),
        };
        if paths.contains(name.as_slice()) {
            let shown = lossy_text(name.as_slice());
            return Err(
                SandboxError::ImageProvider(
                    join3("OCI layer repeats path `", shown.as_str(), "`"),
                ),
            );
        }
        let entries: usize = match budget.entries.checked_add(1) {
            Some(entries) => entries,
            None => {
                return Err(SandboxError::ImageProvider("layer entry count overflow".to_owned()));
            },
        };
        if entries > limits.maximum_entries {
            return Err(
                SandboxError::ImageProvider("image exceeds the layer entry limit".to_owned()),
            );
        }
        let whiteout = is_whiteout(name.as_slice());
        let size: u64 = match check_shape(limits, entry, &name, whiteout) {
            Ok(size) => size,
            Err(error) => return Err(error),
        };
        let mut logical_bytes: u64 = budget.logical_bytes;
        let file = match entry.kind {
            EntryKind::File => true,
            _ => false,
        };
        if file && !whiteout {
            logical_bytes = match logical_bytes.checked_add(size) {
                Some(sum) => sum,
                None => {
                    return Err(
                        SandboxError::ImageProvider("expanded layer size overflow".to_owned()),
                    );
                },
            };
            if logical_bytes > limits.maximum_expanded_bytes {
                return Err(
                    SandboxError::ImageProvider(
                        "image exceeds the expanded byte limit".to_owned(),
                    ),
                );
            }
        }
        paths.insert(name);
        Ok(
            LayerAudit {
                budget: LayerBudget {
                    entries,
                    logical_bytes,
                    decoded_bytes: budget.decoded_bytes,
                },
                paths,
            },
        )
    }

    /// Ends the layer, which decoded to `decoded` bytes.
    pub fn finish(self, decoded: u64) -> (r: Result<LayerBudget, SandboxError>)
        ensures
            match r {
                Ok(budget) => {
                    &&& budget.entries == self.budget.entries
                    &&& budget.logical_bytes == self.budget.logical_bytes
                    &&& budget.decoded_bytes == self.budget.decoded_bytes + decoded
                },
                Err(error) => self.budget.decoded_bytes + decoded > u64::MAX && error@
                    == SandboxFailure::ImageProvider("decoded layer size overflow"@),
            },
    {
        match self.budget.decoded_bytes.checked_add(decoded) {
            Some(decoded_bytes) => Ok(
                LayerBudget {
                    entries: self.budget.entries,
                    logical_bytes: self.budget.logical_bytes,
                    decoded_bytes,
                },
            ),
            None => Err(SandboxError::ImageProvider("decoded layer size overflow".to_owned())),
        }
    }
}

/// The bytes that entries add to the root file system.
pub open spec fn contents(entries: Seq<LayerEntry>) -> nat
    decreases entries.len(),
{
    if entries.len() == 0 {
        0
    } else {
        contents(entries.drop_last()) + entries.last().content()
    }
}

/// The paths of entries.
pub open spec fn names(entries: Seq<LayerEntry>) -> Set<Seq<u8>>
    decreases entries.len(),
{
    if entries.len() == 0 {
        Set::empty()
    } else {
        names(entries.drop_last()).insert(entries.last().name())
    }
}

/// What the budget is behind `entries`.
pub open spec fn spent(budget: LayerBudget, entries: Seq<LayerEntry>) -> LayerBudget {
    LayerBudget {
        entries: (budget.entries + entries.len()) as usize,
        logical_bytes: (budget.logical_bytes + contents(entries)) as u64,
        decoded_bytes: budget.decoded_bytes,
    }
}

/// Every entry is admitted in its turn.
pub open spec fn admitted(
    limits: ImageLimits,
    budget: LayerBudget,
    entries: Seq<LayerEntry>,
) -> bool
    decreases entries.len(),
{
    entries.len() == 0 || {
        let earlier = entries.drop_last();
        &&& admitted(limits, budget, earlier)
        &&& entry_failure(limits, spent(budget, earlier), names(earlier), entries.last()) is None
    }
}

/// A path occurs among the entries.
proof fn lemma_names(entries: Seq<LayerEntry>, at: int)
    requires
        0 <= at < entries.len(),
    ensures
        names(entries).contains(entries[at].name()),
    decreases entries.len(),
{
    if at < entries.len() - 1 {
        lemma_names(entries.drop_last(), at);
    }
}

/// An admitted layer stays within its limits: no path twice, every path below the root,
/// no more entries and no more bytes than allowed.
pub proof fn law_admitted_layers_are_bounded(
    limits: ImageLimits,
    budget: LayerBudget,
    entries: Seq<LayerEntry>,
)
    requires
        admitted(limits, budget, entries),
        budget.entries <= limits.maximum_entries,
        budget.logical_bytes <= limits.maximum_expanded_bytes,
    ensures
        budget.entries + entries.len() <= limits.maximum_entries,
        budget.logical_bytes + contents(entries) <= limits.maximum_expanded_bytes,
        forall|i: int|
            0 <= i < entries.len() ==> is_relative(
                (#[trigger] entries[i]).name(),
                limits.maximum_path_bytes,
            ),
        forall|i: int, j: int|
            0 <= i < j < entries.len() ==> (#[trigger] entries[i]).name() != (
            #[trigger] entries[j]).name(),
    decreases entries.len(),
{
    if entries.len() > 0 {
        let earlier = entries.drop_last();
        let last = entries.last();
        law_admitted_layers_are_bounded(limits, budget, earlier);
        assert(entry_failure(limits, spent(budget, earlier), names(earlier), last) is None);
        assert forall|i: int| 0 <= i < entries.len() implies is_relative(
            (#[trigger] entries[i]).name(),
            limits.maximum_path_bytes,
        ) by {
            if i < earlier.len() {
                assert(earlier[i] == entries[i]);
            }
        }
        assert forall|i: int, j: int| 0 <= i < j < entries.len() implies (
        #[trigger] entries[i]).name() != (#[trigger] entries[j]).name() by {
            assert(earlier[i] == entries[i]);
            if j < earlier.len() {
                assert(earlier[j] == entries[j]);
            } else {
                lemma_names(earlier, i);
            }
        }
    }
}

/// A media type of a layer announces its compression.
pub proof fn law_media_types_announce_their_compression(media_type: Seq<char>)
    ensures
        media_type == "application/vnd.oci.image.layer.v1.tar"@ || media_type
            == "application/vnd.docker.image.rootfs.diff.tar"@ ==> coding_of(media_type) == Some(
            LayerCoding::Plain,
        ),
        coding_of(media_type) == Some(LayerCoding::Plain) ==> media_type
            == "application/vnd.oci.image.layer.v1.tar"@ || media_type
            == "application/vnd.docker.image.rootfs.diff.tar"@,
        media_type == "application/vnd.oci.image.layer.v1.tar+gzip"@ || media_type
            == "application/vnd.docker.image.rootfs.diff.tar.gzip"@ <==> coding_of(media_type)
            == Some(LayerCoding::Gzip),
        media_type == "application/vnd.oci.image.layer.v1.tar+zstd"@ <==> coding_of(media_type)
            == Some(LayerCoding::Zstd),
{
    reveal_strlit("application/vnd.oci.image.layer.v1.tar");
    reveal_strlit("application/vnd.docker.image.rootfs.diff.tar");
    reveal_strlit("application/vnd.oci.image.layer.v1.tar+gzip");
    reveal_strlit("application/vnd.docker.image.rootfs.diff.tar.gzip");
    reveal_strlit("application/vnd.oci.image.layer.v1.tar+zstd");
    let plain = "application/vnd.oci.image.layer.v1.tar"@;
    let gzip = "application/vnd.oci.image.layer.v1.tar+gzip"@;
    let zstd = "application/vnd.oci.image.layer.v1.tar+zstd"@;
    let docker = "application/vnd.docker.image.rootfs.diff.tar"@;
    let docker_gzip = "application/vnd.docker.image.rootfs.diff.tar.gzip"@;
    assert(gzip[39] == 'g' && zstd[39] == 'z');
    assert(plain.len() == 38 && docker.len() == 44 && gzip.len() == 43 && zstd.len() == 43
        && docker_gzip.len() == 49);
}

/// A read is counted exactly where the bytes so far and those read are within the maximum.
pub proof fn law_decoded_bytes_are_bounded(bytes: u64, count: nat, maximum: u64)
    ensures
        decoded_failure(bytes, count, maximum) is None <==> bytes + count <= maximum,
        bytes + count > 0xffff_ffff_ffff_ffff ==> decoded_failure(bytes, count, maximum) == Some(
            "decoded OCI layer size overflow"@,
        ),
        maximum < bytes + count <= 0xffff_ffff_ffff_ffff ==> decoded_failure(bytes, count, maximum)
            == Some("decoded OCI layer exceeds the expanded byte limit"@),
{
}

/// One final slash does not count.
pub proof fn law_one_final_slash_does_not_count(path: Seq<u8>)
    ensures
        stripped(path.push(47)) == path,
        path.len() == 0 || path.last() != 47 ==> stripped(path) == path,
{
    assert(path.push(47).drop_last() =~= path);
}

/// A component is plain exactly where it is not empty, not `.` and not `..`.
pub proof fn law_plain_components_lead_down(component: Seq<u8>)
    ensures
        is_plain_component(component) <==> !(component.len() == 0 || (component.len() == 1
            && component[0] == 46) || (component.len() == 2 && component[0] == 46 && component[1]
            == 46)),
{
    if component.len() == 1 && component[0] == 46 {
        assert(component =~= seq![46u8]);
    }
    if component.len() == 2 && component[0] == 46 && component[1] == 46 {
        assert(component =~= seq![46u8, 46u8]);
    }
}

/// A path below the root starts with no slash, and what is put behind it with a slash lies below
/// the root exactly where both do.
pub proof fn law_relative_paths_are_made_of_plain_components(
    component: Seq<u8>,
    rest: Seq<u8>,
    maximum: usize,
)
    requires
        forall|i: int| 0 <= i < component.len() ==> #[trigger] component[i] != 47,
    ensures
        is_relative(seq![46u8], maximum),
        component != seq![46u8] ==> (is_relative(component, maximum) <==> component.len()
            <= maximum && is_plain_component(component)),
        is_relative(component + seq![47u8] + rest, maximum) <==> {
            &&& component.len() + 1 + rest.len() <= maximum
            &&& is_plain_component(component)
            &&& rest != seq![46u8]
            &&& is_relative(rest, maximum)
        },
{
    let whole = component + seq![47u8] + rest;
    let pieces = text::split(whole, 47);
    let later = text::split(rest, 47);
    text::law_pieces_end_at_separators(component, rest, 47);
    assert(pieces == seq![component] + later);
    assert(whole[component.len() as int] == 47);
    assert(whole != seq![46u8]) by {
        if whole == seq![46u8] {
            assert(whole.len() == 1);
            assert(whole[0] == 47);
        }
    }
    assert(pieces[0] == component);
    assert forall|i: int| 0 <= i < later.len() implies #[trigger] later[i] == pieces[i + 1] by {}
    assert(text::split(component, 47) =~= seq![component]);
    if is_relative(whole, maximum) {
        assert forall|i: int| 0 <= i < later.len() implies is_plain_component(
            #[trigger] later[i],
        ) by {
            assert(is_plain_component(pieces[i + 1]));
        }
        if rest.len() == 0 {
            assert(text::split(rest, 47).len() == 1);
            assert(later[0].len() == 0);
        }
        if rest == seq![46u8] {
            text::law_pieces_end_at_separators(rest, Seq::empty(), 47);
            assert(later[0] == seq![46u8]);
        }
    } else if component.len() + 1 + rest.len() <= maximum && is_plain_component(component) && rest
        != seq![46u8] && is_relative(rest, maximum) {
        assert forall|i: int| 0 <= i < pieces.len() implies is_plain_component(
            #[trigger] pieces[i],
        ) by {
            if i > 0 {
                assert(later[i - 1] == pieces[i]);
            }
        }
    }
    assert(is_plain_component(text::split(component, 47)[0]) == is_plain_component(component));
}

/// A path is refused exactly where, without one final slash, it does not lie below the root.
pub proof fn law_refused_paths_leave_the_root(path: Seq<u8>, maximum: usize, kind: Seq<char>)
    ensures
        path_failure(path, maximum, kind) is None <==> is_relative(stripped(path), maximum),
        path_failure(path, maximum, kind) is Some ==> path_failure(path, maximum, kind) == Some(
            SandboxFailure::ImageProvider(
                "OCI layer "@ + kind + " `"@ + lines::lossy(stripped(path))
                    + "` is not relative and normalized"@,
            ),
        ),
{
}

/// The name of a file is what stands behind the last slash, and it marks a removed file exactly
/// where it is `.wh.` with something behind it.
pub proof fn law_removal_marks_lead_the_name(front: Seq<u8>, name: Seq<u8>)
    requires
        forall|i: int| 0 <= i < name.len() ==> #[trigger] name[i] != 47,
    ensures
        file_name(name) == name,
        file_name(front + seq![47u8] + name) == name,
        is_whiteout_name(name) <==> name.len() > 4 && name.take(4) == seq![46u8, 119u8, 104u8, 46u8],
{
    let whole = front + seq![47u8] + name;
    let at = front.len() as int;
    assert(whole[at] == 47);
    assert forall|i: int| at < i < whole.len() implies #[trigger] whole[i] != 47 by {
        assert(whole[i] == name[i - at - 1]);
    }
    text::lemma_find_last_at(whole, 47, at);
    assert(whole.skip(at + 1) =~= name);
    text::lemma_find_last_at(name, 47, -1);
    assert(name.skip(0) =~= name);
    if name.len() > 4 {
        let mark = seq![46u8, 119u8, 104u8, 46u8];
        if name.take(4) == mark {
            assert(name.take(4)[0] == name[0] && name.take(4)[1] == name[1] && name.take(4)[2]
                == name[2] && name.take(4)[3] == name[3]);
        }
        if is_whiteout_name(name) {
            assert(name.take(4) =~= mark);
        }
    }
}

/// Extended attributes and sparse files are refused, whatever stands behind their prefix, and no
/// other extension is.
pub proof fn law_foreign_extensions_are_refused(rest: Seq<u8>, key: Seq<u8>)
    ensures
        is_foreign_extension(text::utf8("SCHILY.xattr."@) + rest),
        is_foreign_extension(text::utf8("LIBARCHIVE.xattr."@) + rest),
        is_foreign_extension(text::utf8("GNU.sparse."@) + rest),
        is_foreign_extension(key) ==> {
            ||| key.take(text::utf8("SCHILY.xattr."@).len() as int) == text::utf8(
                "SCHILY.xattr."@,
            )
            ||| key.take(text::utf8("LIBARCHIVE.xattr."@).len() as int) == text::utf8(
                "LIBARCHIVE.xattr."@,
            )
            ||| key.take(text::utf8("GNU.sparse."@).len() as int) == text::utf8("GNU.sparse."@)
        },
{
    let first = text::utf8("SCHILY.xattr."@);
    let second = text::utf8("LIBARCHIVE.xattr."@);
    let third = text::utf8("GNU.sparse."@);
    assert((first + rest).subrange(0, first.len() as int) =~= first);
    assert((second + rest).subrange(0, second.len() as int) =~= second);
    assert((third + rest).subrange(0, third.len() as int) =~= third);
    if text::begins_with(key, first) {
        assert(key.take(first.len() as int) =~= first);
    }
    if text::begins_with(key, second) {
        assert(key.take(second.len() as int) =~= second);
    }
    if text::begins_with(key, third) {
        assert(key.take(third.len() as int) =~= third);
    }
}

/// An entry is accepted for what it is exactly where its extensions and size can be read and no
/// extension is foreign, the root is a directory, a mark of a removed file is an empty file, and a
/// link has a proper target.
pub proof fn law_accepted_entries_have_a_shape(limits: ImageLimits, entry: LayerEntry)
    ensures
        shape_failure(limits, entry) is None <==> {
            &&& forall|i: int|
                0 <= i < entry.extensions@.len() ==> ((#[trigger] entry.extensions@[i]) matches Ok(
                    key,
                ) && !is_foreign_extension(key@))
            &&& entry.size is Ok
            &&& stripped(entry.path@) == seq![46u8] ==> entry.kind is Directory
            &&& is_whiteout_name(file_name(stripped(entry.path@))) ==> entry.kind is File
                && entry.size->Ok_0 == 0
            &&& match entry.kind {
                EntryKind::File => true,
                EntryKind::Directory => true,
                EntryKind::Symlink => entry.link matches Ok(Some(target)) && 1 <= target@.len()
                    <= limits.maximum_path_bytes,
                EntryKind::HardLink => entry.link matches Ok(Some(target)) && is_relative(
                    stripped(target@),
                    limits.maximum_path_bytes,
                ),
                EntryKind::Other => false,
            }
        },
{
    let failures = extension_failures(entry.extensions@);
    checks::lemma_first(failures);
    if forall|i: int| 0 <= i < failures.len() ==> #[trigger] failures[i] is None {
        assert forall|i: int| 0 <= i < entry.extensions@.len() implies ((
        #[trigger] entry.extensions@[i]) matches Ok(key) && !is_foreign_extension(key@)) by {
            assert(failures[i] is None);
        }
    }
    if forall|i: int|
        0 <= i < entry.extensions@.len() ==> ((#[trigger] entry.extensions@[i]) matches Ok(key)
            && !is_foreign_extension(key@)) {
        assert forall|i: int| 0 <= i < failures.len() implies #[trigger] failures[i] is None by {
            assert(entry.extensions@[i] is Ok);
        }
    }
}

/// Only the bytes of files that mark no removal count.
pub proof fn law_only_files_have_content(entry: LayerEntry)
    ensures
        !(entry.kind is File) || is_whiteout_name(file_name(stripped(entry.path@))) ==> entry.content()
            == 0,
        entry.kind is File && !is_whiteout_name(file_name(stripped(entry.path@)))
            ==> (entry.size matches Ok(size) ==> entry.content() == size),
{
}

/// An entry is admitted exactly where its path lies below the root and is new, there is room for
/// one more entry, its shape is accepted and its bytes fit.
pub proof fn law_admitted_entries_fit(
    limits: ImageLimits,
    budget: LayerBudget,
    seen: Set<Seq<u8>>,
    entry: LayerEntry,
)
    ensures
        entry_failure(limits, budget, seen, entry) is None <==> {
            &&& is_relative(stripped(entry.path@), limits.maximum_path_bytes)
            &&& !seen.contains(stripped(entry.path@))
            &&& budget.entries < limits.maximum_entries
            &&& shape_failure(limits, entry) is None
            &&& entry.kind is File && !is_whiteout_name(file_name(stripped(entry.path@)))
                ==> budget.logical_bytes + entry.content() <= limits.maximum_expanded_bytes
        },
{
}

/// Each refusal of an entry of a layer is of its kind.
pub proof fn law_refused_layer_entries_say_why(
    limits: ImageLimits,
    budget: LayerBudget,
    seen: Set<Seq<u8>>,
    entry: LayerEntry,
    name: Seq<u8>,
    reason: Seq<char>,
)
    requires
        name == stripped(entry.path@),
    ensures
        archive_failure(reason) == SandboxFailure::ImageProvider(
            "validate OCI layer archive: "@ + reason,
        ),
        is_relative(name, limits.maximum_path_bytes) && seen.contains(name) ==> entry_failure(
            limits,
            budget,
            seen,
            entry,
        ) == Some(
            SandboxFailure::ImageProvider("OCI layer repeats path `"@ + lines::lossy(name) + "`"@),
        ),
        is_relative(name, limits.maximum_path_bytes) && !seen.contains(name) && budget.entries
            < usize::MAX && budget.entries >= limits.maximum_entries ==> entry_failure(
            limits,
            budget,
            seen,
            entry,
        ) == Some(SandboxFailure::ImageProvider("image exceeds the layer entry limit"@)),
        entry.kind is Other ==> link_failure(limits, entry) == Some(
            SandboxFailure::ImageProvider(
                "OCI layer contains unsupported entry `"@ + lines::lossy(name) + "`"@,
            ),
        ),
        entry.kind is Symlink || entry.kind is HardLink ==> (entry.link matches Ok(None)
            ==> link_failure(limits, entry) == Some(
            SandboxFailure::ImageProvider("OCI link omits its target"@),
        )),
        entry.kind is Symlink ==> (entry.link matches Ok(Some(_)) ==> (link_failure(limits, entry)
            matches Some(failure) ==> failure == SandboxFailure::ImageProvider(
            "OCI symbolic-link target is invalid"@,
        ))),
{
}

} // verus!
