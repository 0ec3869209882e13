//! Writable roots on loop devices: an overlay whose upper layer lies in a file of fixed size.

use crate::checks;
use crate::digest;
use crate::lines;
use crate::lines::{chars_of, lines_of, lossy_text, text_of, trim};
use crate::oci::error;
use crate::oci::error::{SandboxError, SandboxFailure};
use crate::oci::provider::handle::{ImmutableRootfs, RootfsText};
use crate::oci::writable::config::WritableRootfsConfig;
use crate::oci::writable::handle::{
    WritableRootfs, WritableText, LOOPBACK_WRITABLE_ROOTFS_PROVIDER_ID,
};
use crate::oci::writable::identity;
use crate::oci::writable::identity::{IdentityText, WritableRootfsIdentity};
use crate::text;
use crate::text::{join3, join5, Alphabet};
use vstd::prelude::*;

verus! {

pub const RECORD_VERSION: u32 = 1;

/// What is kept of a writable root.
#[derive(Debug, PartialEq, Eq)]
pub struct LoopbackRecord {
    pub schema_version: u32,
    pub provider: String,
    pub key: String,
    pub project: String,
    pub service: String,
    pub image_id: String,
    pub exact_reference: String,
    pub quota_bytes: u64,
}

/// A `LoopbackRecord` with its texts read as character sequences.
#[verifier::ext_equal]
pub struct LoopbackRecordText {
    pub schema_version: u32,
    pub provider: Seq<char>,
    pub key: Seq<char>,
    pub project: Seq<char>,
    pub service: Seq<char>,
    pub image_id: Seq<char>,
    pub exact_reference: Seq<char>,
    pub quota_bytes: u64,
}

impl View for LoopbackRecord {
    type V = LoopbackRecordText;

    open spec fn view(&self) -> LoopbackRecordText {
        LoopbackRecordText {
            schema_version: self.schema_version,
            provider: self.provider@,
            key: self.key@,
            project: self.project@,
            service: self.service@,
            image_id: self.image_id@,
            exact_reference: self.exact_reference@,
            quota_bytes: self.quota_bytes,
        }
    }
}

/// What the key of a writable root is the hash of.
pub open spec fn key_preimage(identity: IdentityText, image_id: Seq<char>) -> Seq<u8> {
    text::utf8(identity.project) + seq![0u8] + (text::utf8(identity.service) + seq![0u8]
        + text::utf8(image_id))
}

/// The key of a writable root.
pub fn rootfs_key(identity: &WritableRootfsIdentity, image_id: &str) -> (r: String)
    ensures
        r@ == digest::hash_text(key_preimage(identity@, image_id@)),
        digest::is_hash(r@),
{
    let mut preimage: Vec<u8> = text::copy_bytes(identity.project().as_bytes());
    preimage.push(0);
    preimage.extend_from_slice(identity.service().as_bytes());
    preimage.push(0);
    preimage.extend_from_slice(image_id.as_bytes());
    proof {
        assert(preimage@ =~= key_preimage(identity@, image_id@));
    }
    digest::hash(preimage.as_slice())
}

/// Different projects, services or images have different key preimages.
pub proof fn law_keys_bind_project_service_and_image(
    left: IdentityText,
    image: Seq<char>,
    right: IdentityText,
    other: Seq<char>,
)
    requires
        left.is_valid(),
        right.is_valid(),
        key_preimage(left, image) == key_preimage(right, other),
    ensures
        left == right,
        image == other,
{
    identity::lemma_identifier_has_no_nul(left.project);
    identity::lemma_identifier_has_no_nul(right.project);
    identity::lemma_identifier_has_no_nul(left.service);
    identity::lemma_identifier_has_no_nul(right.service);
    text::lemma_separated(
        text::utf8(left.project),
        text::utf8(left.service) + seq![0u8] + text::utf8(image),
        text::utf8(right.project),
        text::utf8(right.service) + seq![0u8] + text::utf8(other),
        0,
    );
    text::lemma_separated(
        text::utf8(left.service),
        text::utf8(image),
        text::utf8(right.service),
        text::utf8(other),
        0,
    );
    text::lemma_utf8_injective(left.project, right.project);
    text::lemma_utf8_injective(left.service, right.service);
    text::lemma_utf8_injective(image, other);
}

/// The bytes of a key from `from` to `to`.
pub open spec fn part(key: Seq<char>, from: int, to: int) -> Seq<u8> {
    text::utf8(key).subrange(from, to)
}

/// The first half of a key can be cut into the parts of a UUID.
pub open spec fn has_uuid(key: Seq<char>) -> bool {
    &&& text::utf8(key).len() >= 32
    &&& forall|i: int| 0 <= i < 32 ==> #[trigger] text::utf8(key)[i] < 128
}

/// A key that is a hash can be cut into the parts of a UUID; those of the writable roots and of the
/// local volumes are.
pub proof fn law_keys_have_a_uuid(key: Seq<char>)
    requires
        digest::is_hash(key),
    ensures
        has_uuid(key),
{
    let bytes = text::utf8(key);
    assert forall|i: int| 0 <= i < 32 implies #[trigger] text::utf8(key)[i] < 128 by {
        assert(Alphabet::LowerHex.admits(bytes[i]));
    }
}

/// The identifier of the file system of a writable root: the first half of its key, in the
/// notation of a UUID.
pub fn filesystem_uuid(key: &str) -> (r: String)
    requires
        has_uuid(key@),
    ensures
        text::utf8(r@) == part(key@, 0, 8) + seq![45u8] + part(key@, 8, 12) + seq![45u8] + part(
            key@,
            12,
            16,
        ) + seq![45u8] + part(key@, 16, 20) + seq![45u8] + part(key@, 20, 32),
{
    let ghost bytes = text::utf8(key@);
    proof {
        assert(bytes[31] < 128);
    }
    let (head, _) = text::split_text(key, 32);
    let ghost front = text::utf8(head@);
    proof {
        assert forall|i: int| 0 <= i < front.len() implies front[i] < 128 by {
            assert(front[i] == bytes[i]);
        }
    }
    let (first, rest) = text::split_text(head, 8);
    proof {
        assert(text::utf8(rest@)[4] == front[12]);
    }
    let (second, rest) = text::split_text(rest, 4);
    proof {
        assert(text::utf8(rest@)[4] == front[16]);
    }
    let (third, rest) = text::split_text(rest, 4);
    proof {
        assert(text::utf8(rest@)[4] == front[20]);
    }
    let (fourth, fifth) = text::split_text(rest, 4);
    let mut uuid = join5(first, "-", second, "-", third);
    let tail = join5("-", fourth, "-", fifth, "");
    uuid.append(tail.as_str());
    proof {
        lemma_dash();
        text::lemma_utf8_concat(first@, "-"@);
        text::lemma_utf8_concat(first@ + "-"@, second@);
        text::lemma_utf8_concat(first@ + "-"@ + second@, "-"@);
        text::lemma_utf8_concat(first@ + "-"@ + second@ + "-"@, third@);
        text::lemma_utf8_concat("-"@, fourth@);
        text::lemma_utf8_concat("-"@ + fourth@, "-"@);
        text::lemma_utf8_concat("-"@ + fourth@ + "-"@, fifth@);
        text::lemma_utf8_concat("-"@ + fourth@ + "-"@ + fifth@, ""@);
        text::lemma_utf8_concat(first@ + "-"@ + second@ + "-"@ + third@, tail@);
        assert(text::utf8(first@) =~= part(key@, 0, 8));
        assert(text::utf8(second@) =~= part(key@, 8, 12));
        assert(text::utf8(third@) =~= part(key@, 12, 16));
        assert(text::utf8(fourth@) =~= part(key@, 16, 20));
        assert(text::utf8(fifth@) =~= part(key@, 20, 32));
        assert(text::utf8(uuid@) =~= part(key@, 0, 8) + seq![45u8] + part(key@, 8, 12) + seq![45u8]
            + part(key@, 12, 16) + seq![45u8] + part(key@, 16, 20) + seq![45u8] + part(
            key@,
            20,
            32,
        ));
    }
    uuid
}

proof fn lemma_dash()
    ensures
        text::utf8("-"@) == seq![45u8],
        text::utf8(""@) == Seq::<u8>::empty(),
{
    reveal_strlit("-");
    vstd::utf8::is_ascii_chars_encode_utf8("-"@);
    assert(text::utf8("-"@) =~= seq![45u8]);
    reveal_strlit("");
    vstd::utf8::is_ascii_chars_encode_utf8(""@);
    assert(text::utf8(""@) =~= Seq::<u8>::empty());
}

/// `/dev/loop` and a number.
pub open spec fn is_loop_device(value: Seq<char>) -> bool {
    let bytes = text::utf8(value);
    let prefix = text::utf8("/dev/loop"@);
    &&& text::begins_with(bytes, prefix)
    &&& bytes.len() > prefix.len()
    &&& text::drawn_from(bytes.skip(prefix.len() as int), Alphabet::Digit)
}

/// Accepts the name of a loop device.
pub fn check_loop_device(value: String) -> (r: Result<String, SandboxError>)
    ensures
        match r {
            Ok(device) => is_loop_device(value@) && device == value,
            Err(error) => !is_loop_device(value@) && error@ == SandboxFailure::ImageProvider(
                "losetup returned an invalid loop device"@,
            ),
        },
{
    let bytes = value.as_str().as_bytes();
    let prefix = "/dev/loop".as_bytes();
    let length: usize = prefix.len();
    if !text::bytes_begin_with(bytes, prefix) || bytes.len() == length {
        return Err(
            SandboxError::ImageProvider("losetup returned an invalid loop device".to_owned()),
        );
    }
    let number = vstd::slice::slice_subrange(bytes, length, bytes.len());
    proof {
        assert(number@ =~= bytes@.skip(length as int));
    }
    if !text::bytes_drawn_from(number, Alphabet::Digit) {
        return Err(
            SandboxError::ImageProvider("losetup returned an invalid loop device".to_owned()),
        );
    }
    Ok(value)
}

/// Reads the loop device that was printed, before it is looked up.
pub fn parse_loop_device(output: &[u8]) -> (r: Result<String, SandboxError>)
    ensures
        match r {
            Ok(device) => device@ == lines::trimmed(lines::lossy(output@)) && is_loop_device(
                device@,
            ),
            Err(error) => !is_loop_device(lines::trimmed(lines::lossy(output@))) && error@
                == SandboxFailure::ImageProvider("losetup returned an invalid loop device"@),
        },
{
    let decoded = lossy_text(output);
    let chars = chars_of(decoded.as_str());
    check_loop_device(text_of(trim(chars.as_slice())))
}

/// Accepts a loop device that is a block device.
pub fn confirm_loop_device(is_block_device: bool) -> (r: Result<(), SandboxError>)
    ensures
        error::outcome(r) == checks::verdict(
            checks::when(
                !is_block_device,
                SandboxFailure::ImageProvider("losetup result is not a block device"@),
            ),
        ),
{
    if !is_block_device {
        return Err(SandboxError::ImageProvider("losetup result is not a block device".to_owned()));
    }
    Ok(())
}

/// The lines that are not blank.
pub open spec fn filled(rows: Seq<Seq<char>>) -> Seq<Seq<char>>
    decreases rows.len(),
{
    if rows.len() == 0 {
        Seq::empty()
    } else if lines::trimmed(rows.last()).len() == 0 {
        filled(rows.drop_last())
    } else {
        filled(rows.drop_last()).push(rows.last())
    }
}

/// The lines of an output that are not blank.
pub fn filled_lines(output: &str) -> (r: Vec<String>)
    ensures
        text::texts(r@) == filled(lines::lines(output@)),
{
    let chars = chars_of(output);
    let all = lines_of(chars.as_slice());
    let ghost rows = lines::lines(output@);
    let mut kept: Vec<String> = Vec::new();
    let mut i: usize = 0;
    proof {
        assert(rows.take(0) =~= Seq::<Seq<char>>::empty());
        assert(text::texts(kept@) =~= Seq::<Seq<char>>::empty());
    }
    while i < all.len()
        invariant
            i <= all@.len(),
            lines::slices(all@) == rows,
            text::texts(kept@) == filled(rows.take(i as int)),
        decreases all@.len() - i,
    {
        proof {
            assert(lines::slices(all@)[i as int] == all@[i as int]@);
            assert(rows.take(i + 1).drop_last() =~= rows.take(i as int));
            assert(rows.take(i + 1).last() == all@[i as int]@);
        }
        if trim(all[i]).len() > 0 {
            let ghost before = kept@;
            kept.push(text_of(all[i]));
            proof {
                assert(text::texts(kept@) =~= text::texts(before).push(all@[i as int]@));
            }
        }
        i += 1;
    }
    proof {
        assert(rows.take(rows.len() as int) =~= rows);
    }
    kept
}

/// The names of the loop devices that were listed for a file.
pub fn listed_loop_devices(output: &[u8]) -> (r: Vec<String>)
    ensures
        text::texts(r@) == filled(lines::lines(lines::lossy(output@))),
{
    let decoded = lossy_text(output);
    filled_lines(decoded.as_str())
}

/// A byte that separates or escapes overlay options.
pub open spec fn is_option_byte(byte: u8) -> bool {
    byte == 44 || byte == 58 || byte == 92
}

/// Accepts a path that can stand in an overlay option.
pub fn validate_overlay_path(path: &str) -> (r: Result<(), SandboxError>)
    ensures
        error::outcome(r) == checks::verdict(
            checks::when(
                exists|i: int|
                    0 <= i < text::utf8(path@).len() && is_option_byte(
                        #[trigger] text::utf8(path@)[i],
                    ),
                SandboxFailure::ImageProvider(
                    "immutable rootfs path cannot be represented as an overlay mount option"@,
                ),
            ),
        ),
{
    let bytes = path.as_bytes();
    let mut i: usize = 0;
    while i < bytes.len()
        invariant
            i <= bytes@.len(),
            bytes@ == text::utf8(path@),
            forall|j: int| 0 <= j < i ==> !is_option_byte(#[trigger] text::utf8(path@)[j]),
        decreases bytes@.len() - i,
    {
        if bytes[i] == 44 || bytes[i] == 58 || bytes[i] == 92 {
            proof {
                assert(is_option_byte(text::utf8(path@)[i as int]));
            }
            return Err(
                SandboxError::ImageProvider(
                    "immutable rootfs path cannot be represented as an overlay mount option".to_owned(),
                ),
            );
        }
        i += 1;
    }
    Ok(())
}

/// The options of the overlay.
pub fn overlay_options(lower: &str, upper: &str, work: &str) -> (r: String)
    ensures
        r@ == "lowerdir="@ + lower@ + ",upperdir="@ + upper@ + ",workdir="@ + work@,
{
    let mut options = join5("lowerdir=", lower, ",upperdir=", upper, ",workdir=");
    options.append(work);
    options
}

/// The arguments that format the file of a writable root.
pub fn format_arguments(key: &str, backing: &str) -> (r: Vec<String>)
    requires
        has_uuid(key@),
    ensures
        r@.len() == 7,
        text::texts(r@).take(5) == seq!["-q"@, "-F"@, "-m"@, "0"@, "-U"@],
        text::utf8(r@[5]@) == part(key@, 0, 8) + seq![45u8] + part(key@, 8, 12) + seq![45u8] + part(
            key@,
            12,
            16,
        ) + seq![45u8] + part(key@, 16, 20) + seq![45u8] + part(key@, 20, 32),
        r@[6]@ == backing@,
{
    let uuid = filesystem_uuid(key);
    let parts = vec!["-q", "-F", "-m", "0", "-U", uuid.as_str(), backing];
    let ghost expected = text::borrowed(parts@);
    let arguments = text::owned(parts);
    proof {
        let all = text::texts(arguments@);
        assert(all == expected && expected.len() == 7);
        assert(arguments@.len() == all.len());
        assert(all[5] == arguments@[5]@ && all[6] == arguments@[6]@);
        assert(all.take(5) =~= seq!["-q"@, "-F"@, "-m"@, "0"@, "-U"@]);
    }
    arguments
}

/// The arguments that attach a file to a free loop device.
pub fn attach_arguments(backing: &str) -> (r: Vec<String>)
    ensures
        text::texts(r@) == seq!["--find"@, "--show"@, "--nooverlap"@, backing@],
{
    let parts = vec!["--find", "--show", "--nooverlap", backing];
    proof {
        assert(text::borrowed(parts@) =~= seq!["--find"@, "--show"@, "--nooverlap"@, backing@]);
    }
    text::owned(parts)
}

/// The arguments that list the loop devices of a file.
pub fn list_arguments(backing: &str) -> (r: Vec<String>)
    ensures
        text::texts(r@) == seq![
            "--associated"@,
            backing@,
            "--output"@,
            "NAME"@,
            "--noheadings"@,
        ],
{
    let parts = vec!["--associated", backing, "--output", "NAME", "--noheadings"];
    proof {
        assert(text::borrowed(parts@) =~= seq![
            "--associated"@,
            backing@,
            "--output"@,
            "NAME"@,
            "--noheadings"@,
        ]);
    }
    text::owned(parts)
}

/// The arguments that detach a loop device.
pub fn detach_arguments(device: &str) -> (r: Vec<String>)
    ensures
        text::texts(r@) == seq!["--detach"@, device@],
{
    let parts = vec!["--detach", device];
    proof {
        assert(text::borrowed(parts@) =~= seq!["--detach"@, device@]);
    }
    text::owned(parts)
}

/// Why the directory of a writable root could not be made.
pub fn directory_error(already_exists: bool, path: String, source: String) -> (r: SandboxError)
    ensures
        r@ == (if already_exists {
            SandboxFailure::ImageProvider("writable rootfs identity is already active"@)
        } else {
            SandboxFailure::Io { path: path@, source: source@ }
        }),
{
    if already_exists {
        SandboxError::ImageProvider("writable rootfs identity is already active".to_owned())
    } else {
        SandboxError::Io { path, source }
    }
}

/// Why a writable root is not begun.
pub open spec fn begin_failure(
    config: WritableRootfsConfig,
    immutable: RootfsText,
    quota_bytes: u64,
    read_only: bool,
) -> Option<SandboxFailure> {
    checks::or(
        config.quota_failure(quota_bytes),
        checks::or(
            checks::when(
                !read_only,
                SandboxFailure::ImageProvider(
                    "writable rootfs lower layer is not an immutable mount"@,
                ),
            ),
            checks::when(
                exists|i: int|
                    0 <= i < text::utf8(immutable.rootfs).len() && is_option_byte(
                        #[trigger] text::utf8(immutable.rootfs)[i],
                    ),
                SandboxFailure::ImageProvider(
                    "immutable rootfs path cannot be represented as an overlay mount option"@,
                ),
            ),
        ),
    )
}

/// Begins a writable root over an immutable one, of which the mount table says whether it is
/// read-only. Returns the key.
pub fn begin_create(
    config: &WritableRootfsConfig,
    immutable: &ImmutableRootfs,
    identity: &WritableRootfsIdentity,
    quota_bytes: u64,
    read_only: bool,
) -> (r: Result<String, SandboxError>)
    ensures
        match r {
            Ok(key) => {
                &&& begin_failure(*config, immutable@, quota_bytes, read_only) is None
                &&& key@ == digest::hash_text(
                    key_preimage(identity@, immutable@.image.image_id),
                )
                &&& digest::is_hash(key@)
            },
            Err(error) => begin_failure(*config, immutable@, quota_bytes, read_only) == Some(
                error@,
            ),
        },
{
    match config.validate_quota(quota_bytes) {
        Ok(()) => {},
        Err(error) => return Err(error),
    }
    if !read_only {
        return Err(
            SandboxError::ImageProvider(
                "writable rootfs lower layer is not an immutable mount".to_owned(),
            ),
        );
    }
    match validate_overlay_path(immutable.rootfs()) {
        Ok(()) => {},
        Err(error) => return Err(error),
    }
    Ok(rootfs_key(identity, immutable.image().image_id.as_str()))
}

/// What the host is to do next in the directory of a writable root.
#[derive(Debug)]
pub enum CreateState {
    /// Make the file that bounds the upper layer.
    Backing,
    /// Format the file.
    Format,
    /// Attach the file to a loop device.
    Attach,
    /// Look up the loop device.
    Confirm { device: String },
    /// Make the directories of the mounts.
    Directories { device: String },
    /// Mount the loop device.
    Storage { device: String },
    /// Make the upper layer with the mode and the owner of the lower one.
    Upper,
    /// Make the work directory.
    Work,
    /// Mount the overlay.
    Overlay,
    /// Look up the overlay in the mount table.
    Check,
    /// Write the record.
    Record,
    /// Resolve the path of the overlay.
    Resolve,
    /// Clean up the directory.
    Undo { error: SandboxError },
    /// Nothing more.
    Done(Result<String, SandboxError>),
}

/// A `CreateState` with its texts read as character sequences.
pub enum CreateText {
    Backing,
    Format,
    Attach,
    Confirm { device: Seq<char> },
    Directories { device: Seq<char> },
    Storage { device: Seq<char> },
    Upper,
    Work,
    Overlay,
    Check,
    Record,
    Resolve,
    Undo { error: SandboxFailure },
    Done(Result<Seq<char>, SandboxFailure>),
}

impl View for CreateState {
    type V = CreateText;

    open spec fn view(&self) -> CreateText {
        match *self {
            CreateState::Backing => CreateText::Backing,
            CreateState::Format => CreateText::Format,
            CreateState::Attach => CreateText::Attach,
            CreateState::Confirm { device } => CreateText::Confirm { device: device@ },
            CreateState::Directories { device } => CreateText::Directories { device: device@ },
            CreateState::Storage { device } => CreateText::Storage { device: device@ },
            CreateState::Upper => CreateText::Upper,
            CreateState::Work => CreateText::Work,
            CreateState::Overlay => CreateText::Overlay,
            CreateState::Check => CreateText::Check,
            CreateState::Record => CreateText::Record,
            CreateState::Resolve => CreateText::Resolve,
            CreateState::Undo { error } => CreateText::Undo { error: error@ },
            CreateState::Done(result) => CreateText::Done(
                match result {
                    Ok(path) => Ok(path@),
                    Err(error) => Err(error@),
                },
            ),
        }
    }
}

/// What the host has done or found.
#[derive(Debug)]
pub enum CreateEvent {
    Completed(Result<(), SandboxError>),
    Printed(Result<Vec<u8>, SandboxError>),
    Block(Result<bool, SandboxError>),
    Mounted(Result<Option<bool>, SandboxError>),
    Resolved(Result<String, SandboxError>),
}

/// A `CreateEvent` with its texts read as character sequences.
pub enum CreateEventText {
    Completed(Result<(), SandboxFailure>),
    Printed(Result<Seq<u8>, SandboxFailure>),
    Block(Result<bool, SandboxFailure>),
    Mounted(Result<Option<bool>, SandboxFailure>),
    Resolved(Result<Seq<char>, SandboxFailure>),
}

impl View for CreateEvent {
    type V = CreateEventText;

    open spec fn view(&self) -> CreateEventText {
        match *self {
            CreateEvent::Completed(result) => CreateEventText::Completed(
                match result {
                    Ok(()) => Ok(()),
                    Err(error) => Err(error@),
                },
            ),
            CreateEvent::Printed(result) => CreateEventText::Printed(
                match result {
                    Ok(output) => Ok(output@),
                    Err(error) => Err(error@),
                },
            ),
            CreateEvent::Block(result) => CreateEventText::Block(
                match result {
                    Ok(flag) => Ok(flag),
                    Err(error) => Err(error@),
                },
            ),
            CreateEvent::Mounted(result) => CreateEventText::Mounted(
                match result {
                    Ok(state) => Ok(state),
                    Err(error) => Err(error@),
                },
            ),
            CreateEvent::Resolved(result) => CreateEventText::Resolved(
                match result {
                    Ok(path) => Ok(path@),
                    Err(error) => Err(error@),
                },
            ),
        }
    }
}

/// The next state, or the way back.
pub open spec fn or_undo(result: Result<(), SandboxFailure>, next: CreateText) -> CreateText {
    match result {
        Ok(()) => next,
        Err(error) => CreateText::Undo { error },
    }
}

/// What the host is to do after an event. An event that the state does not wait for changes
/// nothing.
pub open spec fn create_step(state: CreateText, event: CreateEventText) -> CreateText {
    match (state, event) {
        (CreateText::Backing, CreateEventText::Completed(result)) => or_undo(
            result,
            CreateText::Format,
        ),
        (CreateText::Format, CreateEventText::Completed(result)) => or_undo(
            result,
            CreateText::Attach,
        ),
        (CreateText::Attach, CreateEventText::Printed(Err(error))) => CreateText::Undo { error },
        (CreateText::Attach, CreateEventText::Printed(Ok(output))) => {
            let device = lines::trimmed(lines::lossy(output));
            if is_loop_device(device) {
                CreateText::Confirm { device }
            } else {
                CreateText::Undo {
                    error: SandboxFailure::ImageProvider(
                        "losetup returned an invalid loop device"@,
                    ),
                }
            }
        },
        (CreateText::Confirm { .. }, CreateEventText::Block(Err(error))) => CreateText::Undo {
            error,
        },
        (CreateText::Confirm { device }, CreateEventText::Block(Ok(flag))) => if flag {
            CreateText::Directories { device }
        } else {
            CreateText::Undo {
                error: SandboxFailure::ImageProvider("losetup result is not a block device"@),
            }
        },
        (CreateText::Directories { device }, CreateEventText::Completed(result)) => or_undo(
            result,
            CreateText::Storage { device },
        ),
        (CreateText::Storage { .. }, CreateEventText::Completed(result)) => or_undo(
            result,
            CreateText::Upper,
        ),
        (CreateText::Upper, CreateEventText::Completed(result)) => or_undo(
            result,
            CreateText::Work,
        ),
        (CreateText::Work, CreateEventText::Completed(result)) => or_undo(
            result,
            CreateText::Overlay,
        ),
        (CreateText::Overlay, CreateEventText::Completed(result)) => or_undo(
            result,
            CreateText::Check,
        ),
        (CreateText::Check, CreateEventText::Mounted(Err(error))) => CreateText::Undo { error },
        (CreateText::Check, CreateEventText::Mounted(Ok(found))) => if found == Some(false) {
            CreateText::Record
        } else {
            CreateText::Undo {
                error: SandboxFailure::ImageProvider(
                    "writable rootfs overlay did not become writable"@,
                ),
            }
        },
        (CreateText::Record, CreateEventText::Completed(result)) => or_undo(
            result,
            CreateText::Resolve,
        ),
        (CreateText::Resolve, CreateEventText::Resolved(Ok(path))) => CreateText::Done(Ok(path)),
        (CreateText::Resolve, CreateEventText::Resolved(Err(error))) => CreateText::Undo { error },
        (CreateText::Undo { error }, CreateEventText::Completed(_)) => CreateText::Done(
            Err(error),
        ),
        (state, _) => state,
    }
}

fn proceed(result: Result<(), SandboxError>, next: CreateState) -> (r: CreateState)
    ensures
        r@ == or_undo(error::outcome(result), next@),
{
    match result {
        Ok(()) => next,
        Err(error) => CreateState::Undo { error },
    }
}

/// Takes what the host has done or found.
pub fn advance_create(state: CreateState, event: CreateEvent) -> (r: CreateState)
    ensures
        r@ == create_step(state@, event@),
{
    match (state, event) {
        (CreateState::Backing, CreateEvent::Completed(result)) => proceed(
            result,
            CreateState::Format,
        ),
        (CreateState::Format, CreateEvent::Completed(result)) => proceed(
            result,
            CreateState::Attach,
        ),
        (CreateState::Attach, CreateEvent::Printed(result)) => match result {
            Err(error) => CreateState::Undo { error },
            Ok(output) => match parse_loop_device(output.as_slice()) {
                Ok(device) => CreateState::Confirm { device },
                Err(error) => CreateState::Undo { error },
            },
        },
        (CreateState::Confirm { device }, CreateEvent::Block(result)) => match result {
            Err(error) => CreateState::Undo { error },
            Ok(flag) => match confirm_loop_device(flag) {
                Ok(()) => CreateState::Directories { device },
                Err(error) => CreateState::Undo { error },
            },
        },
        (CreateState::Directories { device }, CreateEvent::Completed(result)) => proceed(
            result,
            CreateState::Storage { device },
        ),
        (CreateState::Storage { device: _ }, CreateEvent::Completed(result)) => proceed(
            result,
            CreateState::Upper,
        ),
        (CreateState::Upper, CreateEvent::Completed(result)) => proceed(result, CreateState::Work),
        (CreateState::Work, CreateEvent::Completed(result)) => proceed(
            result,
            CreateState::Overlay,
        ),
        (CreateState::Overlay, CreateEvent::Completed(result)) => proceed(
            result,
            CreateState::Check,
        ),
        (CreateState::Check, CreateEvent::Mounted(result)) => match result {
            Err(error) => CreateState::Undo { error },
            Ok(Some(false)) => CreateState::Record,
            Ok(_) => CreateState::Undo {
                error: SandboxError::ImageProvider(
                    "writable rootfs overlay did not become writable".to_owned(),
                ),
            },
        },
        (CreateState::Record, CreateEvent::Completed(result)) => proceed(
            result,
            CreateState::Resolve,
        ),
        (CreateState::Resolve, CreateEvent::Resolved(result)) => match result {
            Ok(path) => CreateState::Done(Ok(path)),
            Err(error) => CreateState::Undo { error },
        },
        (CreateState::Undo { error }, CreateEvent::Completed(_)) => CreateState::Done(Err(error)),
        (state, _) => state,
    }
}

/// Where a row of events leads.
pub open spec fn created(events: Seq<CreateEventText>) -> CreateText
    decreases events.len(),
{
    if events.len() == 0 {
        CreateText::Backing
    } else {
        create_step(created(events.drop_last()), events.last())
    }
}

/// An event is among others.
pub open spec fn happened(events: Seq<CreateEventText>, event: CreateEventText) -> bool {
    exists|i: int| 0 <= i < events.len() && #[trigger] events[i] == event
}

/// What the state says about the events that led to it.
pub open spec fn create_invariant(events: Seq<CreateEventText>, state: CreateText) -> bool {
    match state {
        CreateText::Confirm { device } => is_loop_device(device),
        CreateText::Directories { device } => is_loop_device(device) && happened(
            events,
            CreateEventText::Block(Ok(true)),
        ),
        CreateText::Storage { device } => is_loop_device(device) && happened(
            events,
            CreateEventText::Block(Ok(true)),
        ),
        CreateText::Upper | CreateText::Work | CreateText::Overlay | CreateText::Check => happened(
            events,
            CreateEventText::Block(Ok(true)),
        ),
        CreateText::Record | CreateText::Resolve | CreateText::Done(Ok(_)) => happened(
            events,
            CreateEventText::Block(Ok(true)),
        ) && happened(events, CreateEventText::Mounted(Ok(Some(false)))),
        _ => true,
    }
}

proof fn lemma_create_invariant(events: Seq<CreateEventText>)
    ensures
        create_invariant(events, created(events)),
    decreases events.len(),
{
    if events.len() > 0 {
        let earlier = events.drop_last();
        lemma_create_invariant(earlier);
        assert(events[events.len() - 1] == events.last());
        assert forall|event: CreateEventText| happened(earlier, event) implies happened(
            events,
            event,
        ) by {
            let i = choose|i: int| 0 <= i < earlier.len() && #[trigger] earlier[i] == event;
            assert(events[i] == event);
        }
        if events.last() == CreateEventText::Block(Ok(true)) {
            assert(happened(events, CreateEventText::Block(Ok(true))));
        }
        if events.last() == CreateEventText::Mounted(Ok(Some(false))) {
            assert(happened(events, CreateEventText::Mounted(Ok(Some(false)))));
        }
    }
}

/// Only a block device with the name of a loop device is ever mounted.
pub proof fn law_only_loop_devices_are_mounted(events: Seq<CreateEventText>, device: Seq<char>)
    requires
        created(events) == (CreateText::Storage { device }),
    ensures
        is_loop_device(device),
        happened(events, CreateEventText::Block(Ok(true))),
{
    lemma_create_invariant(events);
}

/// A writable root is handed out only if its overlay was found mounted and writable.
pub proof fn law_created_root_is_writable(events: Seq<CreateEventText>, path: Seq<char>)
    requires
        created(events) == CreateText::Done(Ok::<Seq<char>, SandboxFailure>(path)),
    ensures
        happened(events, CreateEventText::Mounted(Ok(Some(false)))),
{
    lemma_create_invariant(events);
}

/// A failure is handed out only behind the state that cleans up.
pub proof fn law_failed_creation_is_cleaned_up(state: CreateText, event: CreateEventText)
    requires
        create_step(state, event) is Done,
        create_step(state, event)->Done_0 is Err,
        !(state is Done),
    ensures
        state is Undo,
{
}

/// The record of a writable root.
pub open spec fn record_of(rootfs: WritableText) -> LoopbackRecordText {
    LoopbackRecordText {
        schema_version: RECORD_VERSION,
        provider: LOOPBACK_WRITABLE_ROOTFS_PROVIDER_ID@,
        key: rootfs.key,
        project: rootfs.identity.project,
        service: rootfs.identity.service,
        image_id: rootfs.image.image_id,
        exact_reference: rootfs.image.exact_reference,
        quota_bytes: rootfs.quota_bytes,
    }
}

/// The writable root at `rootfs`.
pub open spec fn root_of(
    immutable: RootfsText,
    identity: IdentityText,
    quota_bytes: u64,
    key: Seq<char>,
    rootfs: Seq<char>,
) -> WritableText {
    WritableText {
        provider: LOOPBACK_WRITABLE_ROOTFS_PROVIDER_ID@,
        key,
        identity,
        image: immutable.image,
        rootfs,
        quota_bytes,
    }
}

/// The record that is written for a writable root.
pub fn new_record(
    immutable: &ImmutableRootfs,
    identity: &WritableRootfsIdentity,
    quota_bytes: u64,
    key: &str,
) -> (r: LoopbackRecord)
    ensures
        r@ == record_of(root_of(immutable@, identity@, quota_bytes, key@, Seq::empty())),
{
    LoopbackRecord {
        schema_version: RECORD_VERSION,
        provider: LOOPBACK_WRITABLE_ROOTFS_PROVIDER_ID.to_owned(),
        key: key.to_owned(),
        project: identity.project().to_owned(),
        service: identity.service().to_owned(),
        image_id: immutable.image().image_id.clone(),
        exact_reference: immutable.image().exact_reference.clone(),
        quota_bytes,
    }
}

/// The handle of a writable root.
pub fn new_handle(
    immutable: &ImmutableRootfs,
    identity: WritableRootfsIdentity,
    quota_bytes: u64,
    key: String,
    rootfs: String,
) -> (r: WritableRootfs)
    ensures
        r@ == root_of(immutable@, identity@, quota_bytes, key@, rootfs@),
{
    WritableRootfs::new(
        LOOPBACK_WRITABLE_ROOTFS_PROVIDER_ID.to_owned(),
        key,
        identity,
        immutable.image().clone(),
        rootfs,
        quota_bytes,
    )
}

/// Why a handle is not one of this provider. `expected` is where its root stands.
pub open spec fn handle_failure(rootfs: WritableText, expected: Seq<char>) -> Option<
    SandboxFailure,
> {
    checks::or(
        checks::when(
            rootfs.provider != LOOPBACK_WRITABLE_ROOTFS_PROVIDER_ID@ || rootfs.key
                != digest::hash_text(key_preimage(rootfs.identity, rootfs.image.image_id)),
            SandboxFailure::ImageProvider("writable rootfs handle belongs to another provider"@),
        ),
        checks::when(
            rootfs.rootfs != expected,
            SandboxFailure::ImageProvider(
                "writable rootfs path does not match its provider handle"@,
            ),
        ),
    )
}

/// Accepts a handle of this provider whose root stands at `expected`.
pub fn validate_handle(rootfs: &WritableRootfs, expected: &str) -> (r: Result<(), SandboxError>)
    ensures
        error::outcome(r) == checks::verdict(handle_failure(rootfs@, expected@)),
{
    let key = rootfs_key(rootfs.identity(), rootfs.image().image_id.as_str());
    if !text::same(rootfs.provider_id(), LOOPBACK_WRITABLE_ROOTFS_PROVIDER_ID) || !text::same(
        rootfs.key(),
        key.as_str(),
    ) {
        return Err(
            SandboxError::ImageProvider(
                "writable rootfs handle belongs to another provider".to_owned(),
            ),
        );
    }
    if !text::same(rootfs.rootfs(), expected) {
        return Err(
            SandboxError::ImageProvider(
                "writable rootfs path does not match its provider handle".to_owned(),
            ),
        );
    }
    Ok(())
}

/// Accepts the record of a handle.
pub fn check_record(rootfs: &WritableRootfs, record: &LoopbackRecord) -> (r: Result<
    (),
    SandboxError,
>)
    ensures
        error::outcome(r) == checks::verdict(
            checks::when(
                record@ != record_of(rootfs@),
                SandboxFailure::ImageProvider(
                    "writable rootfs metadata does not match its handle"@,
                ),
            ),
        ),
{
    if record.schema_version != RECORD_VERSION || !text::same(
        record.provider.as_str(),
        LOOPBACK_WRITABLE_ROOTFS_PROVIDER_ID,
    ) || !text::same(record.key.as_str(), rootfs.key()) || !text::same(
        record.project.as_str(),
        rootfs.identity().project(),
    ) || !text::same(record.service.as_str(), rootfs.identity().service()) || !text::same(
        record.image_id.as_str(),
        rootfs.image().image_id.as_str(),
    ) || !text::same(
        record.exact_reference.as_str(),
        rootfs.image().exact_reference.as_str(),
    ) || record.quota_bytes != rootfs.quota_bytes() {
        return Err(
            SandboxError::ImageProvider(
                "writable rootfs metadata does not match its handle".to_owned(),
            ),
        );
    }
    Ok(())
}

/// A writable root that was created is accepted with its record as long as it stands where it
/// was made.
pub proof fn law_created_root_is_accepted(
    immutable: RootfsText,
    identity: IdentityText,
    quota_bytes: u64,
    rootfs: Seq<char>,
)
    ensures
        ({
            let key = digest::hash_text(key_preimage(identity, immutable.image.image_id));
            let made = root_of(immutable, identity, quota_bytes, key, rootfs);
            &&& handle_failure(made, rootfs) is None
            &&& record_of(made) == record_of(
                root_of(immutable, identity, quota_bytes, key, Seq::empty()),
            )
        }),
{
}

/// What a failed restore reports, given how the clean-up went.
pub fn restore_failure(failure: SandboxError, cleanup: Result<(), SandboxError>) -> (r:
    SandboxError)
    ensures
        r@ == (match cleanup {
            Ok(()) => failure@,
            Err(cleanup) => SandboxFailure::ImageProvider(
                "restore writable rootfs failed: "@ + failure@.text() + "; cleanup failed: "@
                    + cleanup@.text() + ""@,
            ),
        }),
{
    match cleanup {
        Ok(()) => failure,
        Err(cleanup) => {
            let first = failure.message();
            let second = cleanup.message();
            SandboxError::ImageProvider(
                join5(
                    "restore writable rootfs failed: ",
                    first.as_str(),
                    "; cleanup failed: ",
                    second.as_str(),
                    "",
                ),
            )
        },
    }
}

/// Keeps the first failure of a clean-up, whose steps are all taken.
pub struct Cleanup {
    pub first_error: Option<SandboxError>,
}

impl Cleanup {
    pub fn new() -> (r: Self)
        ensures
            r.first_error is None,
    {
        Cleanup { first_error: None }
    }

    /// Takes the outcome of a step.
    pub fn note(self, result: Result<(), SandboxError>) -> (r: Self)
        ensures
            match self.first_error {
                Some(error) => r.first_error == Some(error),
                None => match result {
                    Ok(()) => r.first_error is None,
                    Err(error) => r.first_error == Some(error),
                },
            },
    {
        match self.first_error {
            Some(error) => Cleanup { first_error: Some(error) },
            None => match result {
                Ok(()) => Cleanup { first_error: None },
                Err(error) => Cleanup { first_error: Some(error) },
            },
        }
    }

    /// Whether the directory may be removed: nothing is left mounted or attached.
    pub fn may_remove(&self) -> (r: bool)
        ensures
            r == (self.first_error is None),
    {
        self.first_error.is_none()
    }

    pub fn finish(self) -> (r: Result<(), SandboxError>)
        ensures
            r == (match self.first_error {
                Some(error) => Err::<(), SandboxError>(error),
                None => Ok::<(), SandboxError>(()),
            }),
    {
        match self.first_error {
            Some(error) => Err(error),
            None => Ok(()),
        }
    }
}

/// Accepts a directory that a garbage collection removes.
pub fn check_stale_entry(is_directory: bool, path: &str) -> (r: Result<(), SandboxError>)
    ensures
        error::outcome(r) == checks::verdict(
            checks::when(
                !is_directory,
                SandboxFailure::ImageProvider(
                    "unexpected writable rootfs entry `"@ + path@ + "`"@,
                ),
            ),
        ),
{
    if !is_directory {
        return Err(
            SandboxError::ImageProvider(
                join3("unexpected writable rootfs entry `", path, "`"),
            ),
        );
    }
    Ok(())
}

/// What a root is keyed by: project, service and image, with a zero between.
pub proof fn law_loopback_keys_are_of_project_service_and_image(
    identity: IdentityText,
    image_id: Seq<char>,
)
    ensures
        key_preimage(identity, image_id) == text::utf8(identity.project) + seq![0u8] + text::utf8(
            identity.service,
        ) + seq![0u8] + text::utf8(image_id),
{
    assert(key_preimage(identity, image_id) =~= text::utf8(identity.project) + seq![0u8]
        + text::utf8(identity.service) + seq![0u8] + text::utf8(image_id));
}

/// A part of a key is what stands from one place to another.
pub proof fn law_parts_of_keys_stand_in_their_place(key: Seq<char>, from: int, to: int, i: int)
    requires
        0 <= from <= to <= text::utf8(key).len(),
        0 <= i < to - from,
    ensures
        part(key, from, to).len() == to - from,
        part(key, from, to)[i] == text::utf8(key)[from + i],
{
}

/// A loop device is `/dev/loop` and its number.
pub proof fn law_root_devices_are_numbered(value: Seq<char>, number: Seq<u8>)
    requires
        text::utf8(value) == text::utf8("/dev/loop"@) + number,
    ensures
        is_loop_device(value) <==> 1 <= number.len() && (forall|i: int|
            0 <= i < number.len() ==> 48 <= #[trigger] number[i] <= 57),
{
    let bytes = text::utf8(value);
    let prefix = text::utf8("/dev/loop"@);
    assert(bytes.subrange(0, prefix.len() as int) =~= prefix);
    assert(bytes.skip(prefix.len() as int) =~= number);
    assert forall|i: int| 0 <= i < number.len() implies (Alphabet::Digit.admits(
        #[trigger] number[i],
    ) <==> 48 <= number[i] <= 57) by {
        text::law_alphabets_hold_their_bytes(number[i]);
    }
    if text::drawn_from(number, Alphabet::Digit) {
        assert forall|i: int| 0 <= i < number.len() implies 48 <= #[trigger] number[i] <= 57 by {
            assert(Alphabet::Digit.admits(number[i]));
        }
    }
}

/// Rows of white space alone are passed over, and all others kept in their order.
pub proof fn law_blank_rows_are_passed_over(rows: Seq<Seq<char>>, row: Seq<char>)
    ensures
        filled(Seq::<Seq<char>>::empty()).len() == 0,
        lines::trimmed(row).len() == 0 ==> filled(rows.push(row)) == filled(rows),
        lines::trimmed(row).len() > 0 ==> filled(rows.push(row)) == filled(rows).push(row),
{
    assert(rows.push(row).drop_last() =~= rows);
}

/// A root is begun exactly where its quota is accepted and what lies below it is read-only and can
/// be written as a mount option: without comma, colon and backslash.
pub proof fn law_begun_roots_lie_on_read_only_mounts(
    config: WritableRootfsConfig,
    immutable: RootfsText,
    quota_bytes: u64,
    read_only: bool,
)
    ensures
        begin_failure(config, immutable, quota_bytes, read_only) is None <==> {
            &&& config.minimum_bytes <= quota_bytes
            &&& quota_bytes <= config.maximum_bytes
            &&& read_only
            &&& forall|i: int|
                0 <= i < text::utf8(immutable.rootfs).len() ==> !(#[trigger] text::utf8(
                    immutable.rootfs,
                )[i] == 44 || text::utf8(immutable.rootfs)[i] == 58 || text::utf8(
                    immutable.rootfs,
                )[i] == 92)
        },
{
    let bytes = text::utf8(immutable.rootfs);
    if forall|i: int|
        0 <= i < bytes.len() ==> !(#[trigger] bytes[i] == 44 || bytes[i] == 58 || bytes[i] == 92) {
        assert(!exists|i: int| 0 <= i < bytes.len() && is_option_byte(#[trigger] bytes[i]));
    }
    if !exists|i: int| 0 <= i < bytes.len() && is_option_byte(#[trigger] bytes[i]) {
        assert forall|i: int| 0 <= i < bytes.len() implies !(#[trigger] bytes[i] == 44 || bytes[i]
            == 58 || bytes[i] == 92) by {
            assert(!is_option_byte(bytes[i]));
        }
    }
}

/// A root is made in this order: backing, format, loop device, directories, storage, upper and work
/// directory, overlay, record. Any failure undoes it.
pub proof fn law_creations_take_their_course(
    output: Seq<u8>,
    device: Seq<char>,
    path: Seq<char>,
    found: Option<bool>,
    failure: SandboxFailure,
    done: Result<(), SandboxFailure>,
)
    ensures
        create_step(CreateText::Backing, CreateEventText::Completed(Ok(()))) is Format,
        create_step(CreateText::Format, CreateEventText::Completed(Ok(()))) is Attach,
        create_step(CreateText::Attach, CreateEventText::Printed(Ok(output))) == (
        if is_loop_device(lines::trimmed(lines::lossy(output))) {
            CreateText::Confirm { device: lines::trimmed(lines::lossy(output)) }
        } else {
            CreateText::Undo {
                error: SandboxFailure::ImageProvider("losetup returned an invalid loop device"@),
            }
        }),
        create_step((CreateText::Confirm { device }), CreateEventText::Block(Ok(true))) == (
        CreateText::Directories { device }),
        create_step((CreateText::Confirm { device }), CreateEventText::Block(Ok(false))) is Undo,
        create_step((CreateText::Directories { device }), CreateEventText::Completed(Ok(()))) == (
        CreateText::Storage { device }),
        create_step((CreateText::Storage { device }), CreateEventText::Completed(Ok(()))) is Upper,
        create_step(CreateText::Upper, CreateEventText::Completed(Ok(()))) is Work,
        create_step(CreateText::Work, CreateEventText::Completed(Ok(()))) is Overlay,
        create_step(CreateText::Overlay, CreateEventText::Completed(Ok(()))) is Check,
        create_step(CreateText::Check, CreateEventText::Mounted(Ok(found))) is Record <==> found
            == Some(false),
        found != Some(false) ==> create_step(
            CreateText::Check,
            CreateEventText::Mounted(Ok(found)),
        ) is Undo,
        create_step(CreateText::Record, CreateEventText::Completed(Ok(()))) is Resolve,
        create_step(CreateText::Resolve, CreateEventText::Resolved(Ok(path))) == CreateText::Done(
            Ok(path),
        ),
        create_step(CreateText::Attach, CreateEventText::Printed(Err(failure))) == (
        CreateText::Undo { error: failure }),
        create_step((CreateText::Confirm { device }), CreateEventText::Block(Err(failure))) == (
        CreateText::Undo { error: failure }),
        create_step(CreateText::Check, CreateEventText::Mounted(Err(failure))) == (
        CreateText::Undo { error: failure }),
        create_step(CreateText::Resolve, CreateEventText::Resolved(Err(failure))) == (
        CreateText::Undo { error: failure }),
        forall|state: CreateText|
            (state is Backing || state is Format || state is Directories || state is Storage
                || state is Upper || state is Work || state is Overlay || state is Record)
                ==> #[trigger] create_step(state, CreateEventText::Completed(Err(failure))) == (
            CreateText::Undo { error: failure }),
        create_step((CreateText::Undo { error: failure }), CreateEventText::Completed(done))
            == CreateText::Done(Err(failure)),
{
}

/// A record and a handle say what they are of, and a handle is accepted exactly where it is of this
/// provider, has the key of its identity and image, and stands where it is expected.
pub proof fn law_loopback_records_say_what_the_root_says(
    rootfs: WritableText,
    immutable: RootfsText,
    identity: IdentityText,
    quota_bytes: u64,
    key: Seq<char>,
    path: Seq<char>,
)
    ensures
        record_of(rootfs).schema_version == 1,
        record_of(rootfs).provider == "loopback-overlay-v1"@,
        record_of(rootfs).key == rootfs.key,
        record_of(rootfs).project == rootfs.identity.project,
        record_of(rootfs).service == rootfs.identity.service,
        record_of(rootfs).image_id == rootfs.image.image_id,
        record_of(rootfs).exact_reference == rootfs.image.exact_reference,
        record_of(rootfs).quota_bytes == rootfs.quota_bytes,
        root_of(immutable, identity, quota_bytes, key, path).provider == "loopback-overlay-v1"@,
        root_of(immutable, identity, quota_bytes, key, path).key == key,
        root_of(immutable, identity, quota_bytes, key, path).identity == identity,
        root_of(immutable, identity, quota_bytes, key, path).image == immutable.image,
        root_of(immutable, identity, quota_bytes, key, path).rootfs == path,
        root_of(immutable, identity, quota_bytes, key, path).quota_bytes == quota_bytes,
        handle_failure(rootfs, path) is None <==> {
            &&& rootfs.provider == "loopback-overlay-v1"@
            &&& rootfs.key == digest::hash_text(
                key_preimage(rootfs.identity, rootfs.image.image_id),
            )
            &&& rootfs.rootfs == path
        },
{
}

/// Each refusal of a root is of its kind.
pub proof fn law_refused_roots_say_why(
    config: WritableRootfsConfig,
    immutable: RootfsText,
    quota_bytes: u64,
    read_only: bool,
    rootfs: WritableText,
    expected: Seq<char>,
)
    ensures
        config.quota_failure(quota_bytes) is Some ==> begin_failure(
            config,
            immutable,
            quota_bytes,
            read_only,
        ) == config.quota_failure(quota_bytes),
        config.quota_failure(quota_bytes) is None && !read_only ==> begin_failure(
            config,
            immutable,
            quota_bytes,
            read_only,
        ) == Some(
            SandboxFailure::ImageProvider("writable rootfs lower layer is not an immutable mount"@),
        ),
        config.quota_failure(quota_bytes) is None && read_only ==> (begin_failure(
            config,
            immutable,
            quota_bytes,
            read_only,
        ) matches Some(failure) ==> failure == SandboxFailure::ImageProvider(
            "immutable rootfs path cannot be represented as an overlay mount option"@,
        )),
        rootfs.provider != "loopback-overlay-v1"@ ==> handle_failure(rootfs, expected) == Some(
            SandboxFailure::ImageProvider("writable rootfs handle belongs to another provider"@),
        ),
        rootfs.rootfs == expected ==> (handle_failure(rootfs, expected) matches Some(failure)
            ==> failure == SandboxFailure::ImageProvider(
            "writable rootfs handle belongs to another provider"@,
        )),
        rootfs.provider == "loopback-overlay-v1"@ && rootfs.key == digest::hash_text(
            key_preimage(rootfs.identity, rootfs.image.image_id),
        ) && rootfs.rootfs != expected ==> handle_failure(rootfs, expected) == Some(
            SandboxFailure::ImageProvider(
                "writable rootfs path does not match its provider handle"@,
            ),
        ),
{
}

} // verus!
