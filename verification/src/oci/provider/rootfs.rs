//! The measurement of a root file system.

use crate::bytes;
use crate::checks;
use crate::digest;
use crate::digest::Hasher;
use crate::lines;
use crate::lines::lossy_text;
use crate::oci::error;
use crate::oci::error::{SandboxError, SandboxFailure};
use crate::oci::provider::config::ImageLimits;
use crate::oci::provider::containerd::RootfsMeasurement;
#[allow(unused_imports)]
use crate::oci::provider::mount::MeasurementText;
use crate::text;
use crate::text::join3;
use vstd::prelude::*;

verus! {

/// What an entry of a root file system is.
#[derive(Debug)]
pub enum RootfsEntryKind {
    Directory,
    Symlink { target: Vec<u8> },
    File { size: u64 },
    Special,
}

/// What the host says of an entry of a root file system.
#[derive(Debug)]
pub struct RootfsEntry {
    pub path: Vec<u8>,
    pub has_attributes: bool,
    pub mode: u32,
    pub kind: RootfsEntryKind,
}

/// Why a path is refused behind `count` others.
pub open spec fn collect_failure(limits: ImageLimits, count: usize, length: usize) -> Option<
    SandboxFailure,
> {
    checks::or(
        checks::when(
            length > limits.maximum_path_bytes,
            SandboxFailure::ImageProvider("rootfs path exceeds the path limit"@),
        ),
        checks::when(
            count >= limits.maximum_entries,
            SandboxFailure::ImageProvider("rootfs exceeds the entry limit"@),
        ),
    )
}

/// Accepts a path of `length` bytes behind `count` others.
pub fn collect_path(limits: &ImageLimits, count: usize, length: usize) -> (r: Result<
    (),
    SandboxError,
>)
    ensures
        error::outcome(r) == checks::verdict(collect_failure(*limits, count, length)),
{
    if length > limits.maximum_path_bytes {
        return Err(SandboxError::ImageProvider("rootfs path exceeds the path limit".to_owned()));
    }
    if count >= limits.maximum_entries {
        return Err(SandboxError::ImageProvider("rootfs exceeds the entry limit".to_owned()));
    }
    Ok(())
}

impl RootfsEntry {
    /// What the measurement takes in of the entry before its content.
    pub open spec fn framing(self) -> Seq<u8> {
        self.path@ + seq![0u8] + bytes::le32(self.mode) + (match self.kind {
            RootfsEntryKind::Directory => text::utf8("dir"@),
            RootfsEntryKind::Symlink { target } => text::utf8("symlink"@) + target@,
            RootfsEntryKind::File { size } => text::utf8("file"@) + bytes::le64(size),
            RootfsEntryKind::Special => Seq::empty(),
        })
    }

    /// The bytes of the content.
    pub open spec fn size(self) -> nat {
        match self.kind {
            RootfsEntryKind::File { size } => size as nat,
            _ => 0,
        }
    }
}

/// Why an entry is refused behind files of `total` bytes.
pub open spec fn scan_failure(limits: ImageLimits, total: u64, entry: RootfsEntry) -> Option<
    SandboxFailure,
> {
    checks::or(
        checks::when(
            entry.has_attributes,
            SandboxFailure::ImageProvider(
                "rootfs entry `"@ + lines::lossy(entry.path@) + "` contains extended attributes"@,
            ),
        ),
        match entry.kind {
            RootfsEntryKind::Directory => None,
            RootfsEntryKind::Symlink { target } => checks::when(
                target@.len() > limits.maximum_path_bytes,
                SandboxFailure::ImageProvider("rootfs symlink target exceeds the path limit"@),
            ),
            RootfsEntryKind::File { size } => checks::or(
                checks::when(
                    total + size > u64::MAX,
                    SandboxFailure::ImageProvider("rootfs size overflow"@),
                ),
                checks::when(
                    total + size > limits.maximum_expanded_bytes,
                    SandboxFailure::ImageProvider("rootfs exceeds the expanded byte limit"@),
                ),
            ),
            RootfsEntryKind::Special => Some(
                SandboxFailure::ImageProvider(
                    "rootfs contains special file `"@ + lines::lossy(entry.path@) + "`"@,
                ),
            ),
        },
    )
}

/// Why an entry is refused behind `count` others with files of `total` bytes.
pub open spec fn entry_failure(
    limits: ImageLimits,
    count: usize,
    total: u64,
    entry: RootfsEntry,
) -> Option<SandboxFailure> {
    checks::or(
        checks::when(
            count >= limits.maximum_entries,
            SandboxFailure::ImageProvider("rootfs exceeds the entry limit"@),
        ),
        scan_failure(limits, total, entry),
    )
}

/// A measurement of what the limits allow.
pub open spec fn is_allowed(measured: MeasurementText, limits: ImageLimits) -> bool {
    &&& digest::is_identity(measured.digest)
    &&& measured.entries <= limits.maximum_entries
    &&& measured.bytes <= limits.maximum_expanded_bytes
}

/// A measurement under way. The view is what it has taken in.
pub struct RootfsMeter {
    hasher: Hasher,
    limits: ImageLimits,
    entries: usize,
    bytes: u64,
}

impl View for RootfsMeter {
    type V = Seq<u8>;

    closed spec fn view(&self) -> Seq<u8> {
        digest::absorbed(self.hasher)
    }
}

impl RootfsMeter {
    /// The limits are kept.
    #[verifier::type_invariant]
    closed spec fn is_within(self) -> bool {
        self.entries <= self.limits.maximum_entries && self.bytes
            <= self.limits.maximum_expanded_bytes
    }

    /// What is allowed.
    pub closed spec fn limits(self) -> ImageLimits {
        self.limits
    }

    /// The entries so far.
    pub closed spec fn count(self) -> usize {
        self.entries
    }

    /// The bytes of the files so far.
    pub closed spec fn total(self) -> u64 {
        self.bytes
    }

    pub fn new(limits: &ImageLimits) -> (r: Self)
        ensures
            r@ == Seq::<u8>::empty(),
            r.limits() == *limits,
            r.count() == 0,
            r.total() == 0,
    {
        RootfsMeter { hasher: Hasher::new(), limits: *limits, entries: 0, bytes: 0 }
    }

    /// Takes in the next entry, or says why the root file system is refused.
    pub fn enter(self, entry: &RootfsEntry) -> (r: Result<Self, SandboxError>)
        ensures
            match r {
                Ok(meter) => {
                    &&& entry_failure(self.limits(), self.count(), self.total(), *entry) is None
                    &&& meter@ == self@ + entry.framing()
                    &&& meter.limits() == self.limits()
                    &&& meter.count() == self.count() + 1
                    &&& meter.total() == self.total() + entry.size()
                },
                Err(error) => entry_failure(self.limits(), self.count(), self.total(), *entry)
                    == Some(error@),
            },
    {
        proof {
            use_type_invariant(&self);
        }
        let RootfsMeter { mut hasher, limits, entries, mut bytes } = self;
        if entries >= limits.maximum_entries {
            return Err(SandboxError::ImageProvider("rootfs exceeds the entry limit".to_owned()));
        }
        if entry.has_attributes {
            let shown = lossy_text(entry.path.as_slice());
            return Err(
                SandboxError::ImageProvider(
                    join3("rootfs entry `", shown.as_str(), "` contains extended attributes"),
                ),
            );
        }
        let mut frame: Vec<u8> = text::copy_bytes(entry.path.as_slice());
        frame.push(0);
        bytes::push_le32(&mut frame, entry.mode);
        proof {
            assert(frame@ =~= entry.path@ + seq![0u8] + bytes::le32(entry.mode));
        }
        match &entry.kind {
            RootfsEntryKind::Directory => {
                frame.extend_from_slice("dir".as_bytes());
            },
            RootfsEntryKind::Symlink { target } => {
                if target.len() > limits.maximum_path_bytes {
                    return Err(
                        SandboxError::ImageProvider(
                            "rootfs symlink target exceeds the path limit".to_owned(),
                        ),
                    );
                }
                frame.extend_from_slice("symlink".as_bytes());
                frame.extend_from_slice(target.as_slice());
            },
            RootfsEntryKind::File { size } => {
                frame.extend_from_slice("file".as_bytes());
                bytes::push_le64(&mut frame, *size);
                bytes = match bytes.checked_add(*size) {
                    Some(sum) => sum,
                    None => {
                        return Err(SandboxError::ImageProvider("rootfs size overflow".to_owned()));
                    },
                };
                if bytes > limits.maximum_expanded_bytes {
                    return Err(
                        SandboxError::ImageProvider(
                            "rootfs exceeds the expanded byte limit".to_owned(),
                        ),
                    );
                }
            },
            RootfsEntryKind::Special => {
                let shown = lossy_text(entry.path.as_slice());
                return Err(
                    SandboxError::ImageProvider(
                        join3("rootfs contains special file `", shown.as_str(), "`"),
                    ),
                );
            },
        }
        proof {
            assert(frame@ =~= entry.framing());
        }
        hasher.update(frame.as_slice());
        Ok(RootfsMeter { hasher, limits, entries: entries + 1, bytes })
    }

    /// Takes in content of the file that was entered last.
    pub fn push(self, chunk: &[u8]) -> (r: Self)
        ensures
            r@ == self@ + chunk@,
            r.limits() == self.limits(),
            r.count() == self.count(),
            r.total() == self.total(),
    {
        proof {
            use_type_invariant(&self);
        }
        let RootfsMeter { mut hasher, limits, entries, bytes } = self;
        hasher.update(chunk);
        RootfsMeter { hasher, limits, entries, bytes }
    }

    /// The measurement of what was taken in.
    pub fn finish(self) -> (r: RootfsMeasurement)
        ensures
            r.digest@ == digest::identity_text(self@),
            r.entries == self.count(),
            r.bytes == self.total(),
            is_allowed(r@, self.limits()),
    {
        proof {
            use_type_invariant(&self);
        }
        RootfsMeasurement {
            digest: self.hasher.identity(),
            entries: self.entries,
            bytes: self.bytes,
        }
    }
}

/// What a measurement takes in of a row of entries with their contents.
pub open spec fn measured(entries: Seq<(RootfsEntry, Seq<u8>)>) -> Seq<u8>
    decreases entries.len(),
{
    if entries.len() == 0 {
        Seq::empty()
    } else {
        measured(entries.drop_last()) + entries.last().0.framing() + entries.last().1
    }
}

/// The sizes of a row of entries in sum.
pub open spec fn sizes(entries: Seq<(RootfsEntry, Seq<u8>)>) -> nat
    decreases entries.len(),
{
    if entries.len() == 0 {
        0
    } else {
        sizes(entries.drop_last()) + entries.last().0.size()
    }
}

/// Every entry is accepted in its turn.
pub open spec fn scanned(limits: ImageLimits, entries: Seq<(RootfsEntry, Seq<u8>)>) -> bool
    decreases entries.len(),
{
    entries.len() == 0 || {
        &&& scanned(limits, entries.drop_last())
        &&& entry_failure(
            limits,
            entries.drop_last().len() as usize,
            sizes(entries.drop_last()) as u64,
            entries.last().0,
        ) is None
    }
}

/// A root file system that was scanned to its end has no special files, no extended
/// attributes, and no more entries and bytes than allowed.
pub proof fn law_scanned_rootfs_is_plain(
    limits: ImageLimits,
    entries: Seq<(RootfsEntry, Seq<u8>)>,
)
    requires
        scanned(limits, entries),
    ensures
        entries.len() <= limits.maximum_entries,
        sizes(entries) <= limits.maximum_expanded_bytes,
        forall|i: int|
            0 <= i < entries.len() ==> !(#[trigger] entries[i]).0.has_attributes && !(
            entries[i].0.kind is Special),
    decreases entries.len(),
{
    if entries.len() > 0 {
        let earlier = entries.drop_last();
        law_scanned_rootfs_is_plain(limits, earlier);
        assert forall|i: int| 0 <= i < entries.len() implies !(#[trigger] entries[i]).0.has_attributes
            && !(entries[i].0.kind is Special) by {
            if i < earlier.len() {
                assert(earlier[i] == entries[i]);
            }
        }
    }
}

/// A path is collected exactly where it is no longer than allowed and there is room for it.
pub proof fn law_collected_paths_fit(limits: ImageLimits, count: usize, length: usize)
    ensures
        collect_failure(limits, count, length) is None <==> length <= limits.maximum_path_bytes
            && count + 1 <= limits.maximum_entries,
        length > limits.maximum_path_bytes ==> collect_failure(limits, count, length) == Some(
            SandboxFailure::ImageProvider("rootfs path exceeds the path limit"@),
        ),
{
}

/// The framing of an entry holds its path, a zero, its mode, its kind and what it points to.
pub proof fn law_framings_hold_path_mode_and_kind(entry: RootfsEntry)
    ensures
        entry.framing().take(entry.path@.len() as int) == entry.path@,
        entry.framing()[entry.path@.len() as int] == 0,
        entry.framing().subrange(entry.path@.len() as int + 1, entry.path@.len() as int + 5) == bytes::le32(
            entry.mode,
        ),
        entry.framing().skip(entry.path@.len() as int + 5) == (match entry.kind {
            RootfsEntryKind::Directory => seq![100u8, 105u8, 114u8],
            RootfsEntryKind::Symlink { target } => seq![
                115u8,
                121u8,
                109u8,
                108u8,
                105u8,
                110u8,
                107u8,
            ] + target@,
            RootfsEntryKind::File { size } => seq![102u8, 105u8, 108u8, 101u8] + bytes::le64(size),
            RootfsEntryKind::Special => Seq::<u8>::empty(),
        }),
        entry.size() == (match entry.kind {
            RootfsEntryKind::File { size } => size as nat,
            _ => 0nat,
        }),
{
    reveal_strlit("dir");
    reveal_strlit("symlink");
    reveal_strlit("file");
    assert(vstd::utf8::is_ascii_chars("dir"@));
    vstd::utf8::is_ascii_chars_encode_utf8("dir"@);
    assert(vstd::utf8::is_ascii_chars("symlink"@));
    vstd::utf8::is_ascii_chars_encode_utf8("symlink"@);
    assert(vstd::utf8::is_ascii_chars("file"@));
    vstd::utf8::is_ascii_chars_encode_utf8("file"@);
    assert(bytes::le32(entry.mode).len() == 4);
    let front = entry.path@ + seq![0u8] + bytes::le32(entry.mode);
    let framing = entry.framing();
    assert(framing.take(entry.path@.len() as int) =~= entry.path@);
    assert(framing.subrange(entry.path@.len() as int + 1, entry.path@.len() as int + 5) =~= bytes::le32(
        entry.mode,
    ));
    assert(text::utf8("dir"@) =~= seq![100u8, 105u8, 114u8]);
    assert(text::utf8("symlink"@) =~= seq![115u8, 121u8, 109u8, 108u8, 105u8, 110u8, 107u8]);
    assert(text::utf8("file"@) =~= seq![102u8, 105u8, 108u8, 101u8]);
    assert(framing.skip(entry.path@.len() as int + 5) =~= (match entry.kind {
        RootfsEntryKind::Directory => text::utf8("dir"@),
        RootfsEntryKind::Symlink { target } => text::utf8("symlink"@) + target@,
        RootfsEntryKind::File { size } => text::utf8("file"@) + bytes::le64(size),
        RootfsEntryKind::Special => Seq::<u8>::empty(),
    }));
}

/// An entry is accepted exactly where there is room for it, it has no extended attributes, it is
/// no special file, a link points no further than a path may reach, and a file fits.
pub proof fn law_accepted_entries_are_plain(
    limits: ImageLimits,
    count: usize,
    total: u64,
    entry: RootfsEntry,
)
    ensures
        entry_failure(limits, count, total, entry) is None <==> {
            &&& count + 1 <= limits.maximum_entries
            &&& scan_failure(limits, total, entry) is None
        },
        scan_failure(limits, total, entry) is None <==> !entry.has_attributes && (match entry.kind {
            RootfsEntryKind::Directory => true,
            RootfsEntryKind::Symlink { target } => target@.len() <= limits.maximum_path_bytes,
            RootfsEntryKind::File { size } => total + size <= limits.maximum_expanded_bytes,
            RootfsEntryKind::Special => false,
        }),
{
}

/// A measurement is allowed exactly where it has a digest and counts no more than allowed.
pub proof fn law_allowed_measurements_are_bounded(measured: MeasurementText, limits: ImageLimits)
    ensures
        is_allowed(measured, limits) <==> {
            &&& digest::is_identity(measured.digest)
            &&& measured.entries <= limits.maximum_entries
            &&& measured.bytes <= limits.maximum_expanded_bytes
        },
{
}

/// Each refusal of an entry is of its kind.
pub proof fn law_refused_rootfs_entries_say_why(
    limits: ImageLimits,
    count: usize,
    total: u64,
    entry: RootfsEntry,
)
    ensures
        count >= limits.maximum_entries ==> entry_failure(limits, count, total, entry) == Some(
            SandboxFailure::ImageProvider("rootfs exceeds the entry limit"@),
        ),
        count < limits.maximum_entries ==> entry_failure(limits, count, total, entry)
            == scan_failure(limits, total, entry),
        entry.has_attributes ==> scan_failure(limits, total, entry) == Some(
            SandboxFailure::ImageProvider(
                "rootfs entry `"@ + lines::lossy(entry.path@) + "` contains extended attributes"@,
            ),
        ),
        !entry.has_attributes && entry.kind is Special ==> scan_failure(limits, total, entry)
            == Some(
            SandboxFailure::ImageProvider(
                "rootfs contains special file `"@ + lines::lossy(entry.path@) + "`"@,
            ),
        ),
        !entry.has_attributes && entry.kind is Symlink ==> (scan_failure(limits, total, entry)
            matches Some(failure) ==> failure == SandboxFailure::ImageProvider(
            "rootfs symlink target exceeds the path limit"@,
        )),
        !entry.has_attributes ==> (entry.kind matches RootfsEntryKind::File { size } ==> (
        limits.maximum_expanded_bytes < total + size <= 0xffff_ffff_ffff_ffff ==> scan_failure(
            limits,
            total,
            entry,
        ) == Some(SandboxFailure::ImageProvider("rootfs exceeds the expanded byte limit"@)))),
{
}

} // verus!
