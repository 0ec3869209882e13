//! Files of secret volumes: what is taken from a local directory, and what is written out.

use crate::checks;
use crate::oci::error;
use crate::oci::provider::config;
use crate::oci::provider::config::absolute;
use crate::table;
use crate::table::{rank, Rank};
use crate::text;
use crate::text::Alphabet;
use crate::volume::error::{VolumeError, VolumeFailure};
use crate::volume::model::VolumeScope;
use vstd::prelude::*;
use vstd::utf8::*;

verus! {

pub const MAXIMUM_SECRET_FILES: usize = 1_024;

/// A bounded name that stays in its directory.
pub open spec fn is_secret_name(name: Seq<char>) -> bool {
    let bytes = text::utf8(name);
    &&& 0 < bytes.len() <= 255
    &&& text::drawn_from(bytes, Alphabet::DottedToken)
    &&& name != "."@
    &&& name != ".."@
}

/// Why the name of a secret file is refused.
pub open spec fn name_failure(name: Seq<char>) -> Option<VolumeFailure> {
    checks::when(
        !is_secret_name(name),
        VolumeFailure::Invalid("secret filename is not a bounded path-safe name"@),
    )
}

/// Accepts the name of a secret file.
pub fn validate_secret_name(name: &str) -> (r: Result<(), VolumeError>)
    ensures
        error::outcome(r) == checks::verdict(name_failure(name@)),
{
    let length: usize = name.as_bytes().len();
    if length == 0 || length > 255 || !text::all_bytes(name, Alphabet::DottedToken) || text::same(
        name,
        ".",
    ) || text::same(name, "..") {
        return Err(
            VolumeError::Invalid("secret filename is not a bounded path-safe name".to_owned()),
        );
    }
    Ok(())
}

/// An accepted name holds no separator and no NUL, and leads neither nowhere nor up.
pub proof fn law_secret_names_stay_in_their_directory(name: Seq<char>)
    requires
        name_failure(name) is None,
    ensures
        !text::has_byte(text::utf8(name), 47),
        !text::has_byte(text::utf8(name), 0),
        name != "."@ && name != ".."@ && text::utf8(name).len() > 0,
{
}

/// Accepts the configuration of a local secret resolver.
pub fn check_resolver(root: &str, maximum_total_bytes: u64) -> (r: Result<(), VolumeError>)
    ensures
        error::outcome(r) == checks::verdict(
            checks::when(
                !config::is_absolute(root@) || maximum_total_bytes == 0,
                VolumeFailure::Invalid("local secret resolver configuration is invalid"@),
            ),
        ),
{
    if !absolute(root) || maximum_total_bytes == 0 {
        return Err(
            VolumeError::Invalid("local secret resolver configuration is invalid".to_owned()),
        );
    }
    Ok(())
}

/// A directory that only its owner, this process, may use.
pub open spec fn is_private(is_directory: bool, owned: bool, mode: u32) -> bool {
    is_directory && owned && mode & 0o077 == 0
}

/// Accepts the root of a local secret resolver.
pub fn check_secret_root(is_directory: bool, owned: bool, mode: u32) -> (r: Result<(), VolumeError>)
    ensures
        error::outcome(r) == checks::verdict(
            checks::when(
                !is_private(is_directory, owned, mode),
                VolumeFailure::AccessDenied("local secret root must be owner-only"@),
            ),
        ),
{
    if !is_directory || !owned || mode & 0o077 != 0 {
        return Err(VolumeError::AccessDenied("local secret root must be owner-only".to_owned()));
    }
    Ok(())
}

/// Accepts the directory of a secret volume.
pub fn check_secret_directory(is_directory: bool, owned: bool, mode: u32) -> (r: Result<
    (),
    VolumeError,
>)
    ensures
        error::outcome(r) == checks::verdict(
            checks::when(
                !is_private(is_directory, owned, mode),
                VolumeFailure::AccessDenied("secret source directory must be owner-only"@),
            ),
        ),
{
    if !is_directory || !owned || mode & 0o077 != 0 {
        return Err(
            VolumeError::AccessDenied("secret source directory must be owner-only".to_owned()),
        );
    }
    Ok(())
}

/// The directories that lead from the root to a secret volume, each opened below the one
/// before it.
pub fn secret_components(scope: &VolumeScope, volume_id: &str) -> (r: Vec<String>)
    ensures
        text::texts(r@) == seq![
            "tenants"@,
            scope@.tenant_id,
            "workspaces"@,
            scope@.workspace_id,
            volume_id@,
        ],
{
    let parts = vec!["tenants", scope.tenant_id(), "workspaces", scope.workspace_id(), volume_id];
    proof {
        assert(text::borrowed(parts@) =~= seq![
            "tenants"@,
            scope@.tenant_id,
            "workspaces"@,
            scope@.workspace_id,
            volume_id@,
        ]);
    }
    text::owned(parts)
}

/// How opening a file or a directory failed.
#[derive(Clone, Copy, Debug, PartialEq, Eq, Structural)]
pub enum OpenFault {
    /// There is nothing.
    Missing,
    /// There is a symbolic link, no directory, or no permission.
    Refused,
    /// Anything else.
    Other,
}

/// Why a directory on the way to a secret volume was not opened.
pub fn directory_error(fault: OpenFault, volume_id: &str, path: String, source: String) -> (r:
    VolumeError)
    ensures
        r@ == match fault {
            OpenFault::Missing => VolumeFailure::NotFound(volume_id@),
            OpenFault::Refused => VolumeFailure::AccessDenied(
                "secret source path must not contain symbolic links"@,
            ),
            OpenFault::Other => VolumeFailure::Io { path: path@, source: source@ },
        },
{
    match fault {
        OpenFault::Missing => VolumeError::NotFound(volume_id.to_owned()),
        OpenFault::Refused => VolumeError::AccessDenied(
            "secret source path must not contain symbolic links".to_owned(),
        ),
        OpenFault::Other => VolumeError::Io { path, source },
    }
}

/// Why a secret file was not opened.
pub fn file_error(refused: bool, path: String, source: String) -> (r: VolumeError)
    ensures
        r@ == (if refused {
            VolumeFailure::AccessDenied("secret source must not contain symbolic links"@)
        } else {
            VolumeFailure::Io { path: path@, source: source@ }
        }),
{
    if refused {
        VolumeError::AccessDenied("secret source must not contain symbolic links".to_owned())
    } else {
        VolumeError::Io { path, source }
    }
}

/// A file that a secret directory lists.
#[derive(Debug)]
pub struct SecretEntry {
    pub name: String,
    pub inode: u64,
}

/// Entries with their names read as character sequences.
pub open spec fn listed(entries: Seq<SecretEntry>) -> Seq<(Seq<char>, u64)> {
    Seq::new(entries.len(), |i: int| (entries[i].name@, entries[i].inode))
}

/// No entry stands behind one with a greater name.
pub open spec fn by_name(entries: Seq<(Seq<char>, u64)>) -> bool {
    forall|i: int, j: int|
        0 <= i < j < entries.len() ==> !table::precedes(
            text::utf8(#[trigger] entries[j].0),
            text::utf8(#[trigger] entries[i].0),
        )
}

/// The files that a secret directory lists, by name.
pub struct SecretListing {
    entries: Vec<SecretEntry>,
}

impl View for SecretListing {
    type V = Seq<(Seq<char>, u64)>;

    closed spec fn view(&self) -> Seq<(Seq<char>, u64)> {
        listed(self.entries@)
    }
}

/// `.` and `..`, which every directory lists.
pub open spec fn is_dots(filename: Seq<u8>) -> bool {
    filename == seq![46u8] || filename == seq![46u8, 46u8]
}

/// Why a listed file is refused behind `count` others.
pub open spec fn listing_failure(filename: Seq<u8>, count: nat) -> Option<VolumeFailure> {
    if is_dots(filename) {
        None
    } else {
        checks::or(
            checks::when(
                !valid_utf8(filename),
                VolumeFailure::Invalid("secret filename is not UTF-8"@),
            ),
            checks::or(
                name_failure(decode_utf8(filename)),
                checks::when(
                    count >= MAXIMUM_SECRET_FILES,
                    VolumeFailure::Invalid("secret source contains an invalid file count"@),
                ),
            ),
        )
    }
}

/// Whether a file name is `.` or `..`.
fn dots(filename: &[u8]) -> (r: bool)
    ensures
        r == is_dots(filename@),
{
    let length: usize = filename.len();
    proof {
        if length == 1 && filename@[0] == 46 {
            assert(filename@ =~= seq![46u8]);
        }
        if length == 2 && filename@[0] == 46 && filename@[1] == 46 {
            assert(filename@ =~= seq![46u8, 46u8]);
        }
    }
    (length == 1 && filename[0] == 46) || (length == 2 && filename[0] == 46 && filename[1] == 46)
}

impl SecretListing {
    #[verifier::type_invariant]
    closed spec fn well_formed(self) -> bool {
        &&& by_name(listed(self.entries@))
        &&& self.entries@.len() <= MAXIMUM_SECRET_FILES
    }

    pub fn new() -> (r: Self)
        ensures
            r@ == Seq::<(Seq<char>, u64)>::empty(),
    {
        let entries: Vec<SecretEntry> = Vec::new();
        proof {
            assert(listed(entries@) =~= Seq::<(Seq<char>, u64)>::empty());
        }
        SecretListing { entries }
    }

    /// Notes a file, at its place among the others.
    pub fn note(self, filename: Vec<u8>, inode: u64) -> (r: Result<Self, VolumeError>)
        ensures
            match r {
                Ok(listing) => {
                    &&& listing_failure(filename@, self@.len()) is None
                    &&& by_name(listing@)
                    &&& if is_dots(filename@) {
                        listing@ == self@
                    } else {
                        exists|at: int|
                            0 <= at <= self@.len() && listing@ == #[trigger] self@.insert(
                                at,
                                (decode_utf8(filename@), inode),
                            )
                    }
                },
                Err(error) => listing_failure(filename@, self@.len()) == Some(error@),
            },
    {
        proof {
            use_type_invariant(&self);
        }
        if dots(filename.as_slice()) {
            return Ok(self);
        }
        let ghost bytes = filename@;
        let name = match text::decode_utf8(filename) {
            Some(name) => name,
            None => {
                return Err(VolumeError::Invalid("secret filename is not UTF-8".to_owned()));
            },
        };
        proof {
            encode_utf8_decode_utf8(name@);
        }
        match validate_secret_name(name.as_str()) {
            Ok(()) => {},
            Err(error) => return Err(error),
        }
        let SecretListing { mut entries } = self;
        if entries.len() >= MAXIMUM_SECRET_FILES {
            return Err(
                VolumeError::Invalid("secret source contains an invalid file count".to_owned()),
            );
        }
        let ghost before = listed(entries@);
        let mut at: usize = entries.len();
        proof {
            assert(before.len() == entries@.len());
        }
        while at > 0
            invariant_except_break
                at <= entries@.len(),
                before == listed(entries@),
                by_name(before),
                forall|j: int|
                    at <= j < before.len() ==> !table::precedes(
                        text::utf8(#[trigger] before[j].0),
                        text::utf8(name@),
                    ),
            ensures
                at <= entries@.len(),
                before == listed(entries@),
                by_name(before),
                forall|j: int|
                    at <= j < before.len() ==> !table::precedes(
                        text::utf8(#[trigger] before[j].0),
                        text::utf8(name@),
                    ),
                forall|j: int|
                    0 <= j < at ==> !table::precedes(
                        text::utf8(name@),
                        text::utf8(#[trigger] before[j].0),
                    ),
            decreases at,
        {
            let order = rank(
                name.as_str().as_bytes(),
                entries[at - 1].name.as_str().as_bytes(),
            );
            let behind = match order {
                Rank::Before => false,
                _ => true,
            };
            if behind {
                proof {
                    assert(before[at - 1].0 == entries@[at - 1].name@);
                    lemma_behind(before, at as int, name@);
                }
                break;
            }
            proof {
                assert(before[at - 1].0 == entries@[at - 1].name@);
                table::lemma_precedes_asymmetric(
                    text::utf8(name@),
                    text::utf8(before[at - 1].0),
                );
            }
            at = at - 1;
        }
        let ghost item = (name@, inode);
        entries.insert(at, SecretEntry { name, inode });
        proof {
            assert(listed(entries@) =~= before.insert(at as int, item));
            assert(by_name(before.insert(at as int, item)));
        }
        Ok(SecretListing { entries })
    }

    /// The files by name, if there are any.
    pub fn finish(self) -> (r: Result<Vec<SecretEntry>, VolumeError>)
        ensures
            match r {
                Ok(entries) => {
                    &&& listed(entries@) == self@
                    &&& by_name(self@)
                    &&& 0 < self@.len() <= MAXIMUM_SECRET_FILES
                },
                Err(error) => self@.len() == 0 && error@ == VolumeFailure::Invalid(
                    "secret source contains an invalid file count"@,
                ),
            },
    {
        proof {
            use_type_invariant(&self);
        }
        if self.entries.len() == 0 {
            return Err(
                VolumeError::Invalid("secret source contains an invalid file count".to_owned()),
            );
        }
        Ok(self.entries)
    }
}

/// A name that does not precede one entry precedes none before it.
proof fn lemma_behind(entries: Seq<(Seq<char>, u64)>, at: int, name: Seq<char>)
    requires
        0 < at <= entries.len(),
        by_name(entries),
        !table::precedes(text::utf8(name), text::utf8(entries[at - 1].0)),
    ensures
        forall|j: int|
            0 <= j < at ==> !table::precedes(
                text::utf8(name),
                text::utf8(#[trigger] entries[j].0),
            ),
{
    assert forall|j: int| 0 <= j < at implies !table::precedes(
        text::utf8(name),
        text::utf8(#[trigger] entries[j].0),
    ) by {
        if j < at - 1 && table::precedes(text::utf8(name), text::utf8(entries[j].0)) {
            let last = text::utf8(entries[at - 1].0);
            let middle = text::utf8(entries[j].0);
            assert(!table::precedes(last, middle));
            if middle == last {
                assert(false);
            } else {
                table::lemma_total(middle, last, 0);
                table::lemma_precedes_transitive(text::utf8(name), middle, last);
            }
        }
    }
}

/// What the host says of a secret file that it has opened.
#[derive(Clone, Copy, Debug, PartialEq, Eq, Structural)]
pub struct SecretFacts {
    pub length: u64,
    pub is_file: bool,
    /// It is the file that was listed.
    pub same_inode: bool,
    pub owned: bool,
    pub mode: u32,
}

/// The secret files that were opened, and how much they may hold together.
#[derive(Clone, Copy, Debug, PartialEq, Eq, Structural)]
pub struct SecretMeter {
    pub total: u64,
    pub maximum: u64,
}

/// Why an opened secret file is refused.
pub open spec fn secret_failure(meter: SecretMeter, facts: SecretFacts) -> Option<VolumeFailure> {
    checks::or(
        checks::when(
            meter.total + facts.length > u64::MAX,
            VolumeFailure::Invalid("secret size overflow"@),
        ),
        checks::or(
            checks::when(
                !facts.is_file || !facts.same_inode || !facts.owned || facts.mode & 0o077 != 0
                    || meter.total + facts.length > meter.maximum,
                VolumeFailure::AccessDenied(
                    "secret source must contain bounded owner-only regular files"@,
                ),
            ),
            checks::when(
                facts.length > usize::MAX,
                VolumeFailure::Invalid("secret file is too large"@),
            ),
        ),
    )
}

impl SecretMeter {
    /// Accepts an opened secret file: the meter with it, and how many bytes it is to hold.
    pub fn accept(self, facts: SecretFacts) -> (r: Result<(Self, usize), VolumeError>)
        ensures
            match r {
                Ok(step) => {
                    &&& secret_failure(self, facts) is None
                    &&& step.0.total == self.total + facts.length
                    &&& step.0.maximum == self.maximum
                    &&& step.0.total <= step.0.maximum
                    &&& step.1 == facts.length
                },
                Err(error) => secret_failure(self, facts) == Some(error@),
            },
    {
        let total: u64 = match self.total.checked_add(facts.length) {
            Some(total) => total,
            None => return Err(VolumeError::Invalid("secret size overflow".to_owned())),
        };
        if !facts.is_file || !facts.same_inode || !facts.owned || facts.mode & 0o077 != 0 || total
            > self.maximum {
            return Err(
                VolumeError::AccessDenied(
                    "secret source must contain bounded owner-only regular files".to_owned(),
                ),
            );
        }
        if facts.length > usize::MAX as u64 {
            return Err(VolumeError::Invalid("secret file is too large".to_owned()));
        }
        Ok((SecretMeter { total, maximum: self.maximum }, facts.length as usize))
    }
}

/// Accepts the contents of a secret file.
pub fn check_secret_contents(expected: usize, read: usize) -> (r: Result<(), VolumeError>)
    ensures
        error::outcome(r) == checks::verdict(
            checks::when(
                read != expected,
                VolumeFailure::Integrity("secret file changed while it was materialized"@),
            ),
        ),
{
    if read != expected {
        return Err(
            VolumeError::Integrity("secret file changed while it was materialized".to_owned()),
        );
    }
    Ok(())
}

/// Some name before `at` is the name at `at`.
pub open spec fn repeats(names: Seq<Seq<char>>, at: int) -> bool {
    exists|j: int| 0 <= j < at && #[trigger] names[j] == names[at]
}

/// Why the file at `at` is not written out.
pub open spec fn resolved_failure(names: Seq<Seq<char>>, at: int) -> Option<VolumeFailure> {
    checks::or(
        name_failure(names[at]),
        checks::when(
            repeats(names, at),
            VolumeFailure::Invalid("secret resolver returned duplicate names"@),
        ),
    )
}

/// Why the files that a resolver returned are not written out.
pub open spec fn resolution_failure(names: Seq<Seq<char>>) -> Option<VolumeFailure> {
    checks::or(
        checks::when(
            names.len() == 0 || names.len() > MAXIMUM_SECRET_FILES,
            VolumeFailure::Invalid("secret resolver returned an invalid file count"@),
        ),
        checks::first(Seq::new(names.len(), |i: int| resolved_failure(names, i))),
    )
}

/// Accepts the names of the files that a resolver returned.
pub fn check_resolved(names: &Vec<String>) -> (r: Result<(), VolumeError>)
    ensures
        error::outcome(r) == checks::verdict(resolution_failure(text::texts(names@))),
{
    if names.len() == 0 || names.len() > MAXIMUM_SECRET_FILES {
        return Err(
            VolumeError::Invalid("secret resolver returned an invalid file count".to_owned()),
        );
    }
    let ghost all = text::texts(names@);
    let ghost failures = Seq::new(all.len(), |i: int| resolved_failure(all, i));
    let mut i: usize = 0;
    while i < names.len()
        invariant
            i <= names@.len(),
            all == text::texts(names@),
            0 < all.len() <= MAXIMUM_SECRET_FILES,
            failures == Seq::new(all.len(), |i: int| resolved_failure(all, i)),
            forall|j: int| 0 <= j < i ==> #[trigger] failures[j] is None,
        decreases names@.len() - i,
    {
        proof {
            assert(all[i as int] == names@[i as int]@);
            assert(failures[i as int] == resolved_failure(all, i as int));
        }
        match validate_secret_name(names[i].as_str()) {
            Ok(()) => {},
            Err(error) => {
                proof {
                    checks::lemma_first_at(failures, i as int);
                }
                return Err(error);
            },
        }
        let mut j: usize = 0;
        while j < i
            invariant
                j <= i < names@.len(),
                all == text::texts(names@),
                0 < all.len() <= MAXIMUM_SECRET_FILES,
                failures == Seq::new(all.len(), |i: int| resolved_failure(all, i)),
                failures[i as int] == resolved_failure(all, i as int),
                name_failure(all[i as int]) is None,
                forall|k: int| 0 <= k < i ==> #[trigger] failures[k] is None,
                forall|k: int| 0 <= k < j ==> #[trigger] all[k] != all[i as int],
            decreases i - j,
        {
            if text::same(names[j].as_str(), names[i].as_str()) {
                proof {
                    assert(all[j as int] == all[i as int]);
                    assert(repeats(all, i as int));
                    checks::lemma_first_at(failures, i as int);
                }
                return Err(
                    VolumeError::Invalid("secret resolver returned duplicate names".to_owned()),
                );
            }
            proof {
                assert(all[j as int] == names@[j as int]@);
            }
            j += 1;
        }
        i += 1;
    }
    proof {
        checks::lemma_first_none(failures);
    }
    Ok(())
}

/// The options of the file system that holds the files of a secret volume.
pub fn secret_options(quota_bytes: u64) -> (r: String)
    ensures
        r@ == "size="@ + text::decimal(quota_bytes as nat) + ",mode=0700"@,
{
    let size = text::decimal_text(quota_bytes);
    text::join3("size=", size.as_str(), ",mode=0700")
}

/// Files that are written out are between one and the limit, with safe names of which none
/// occurs twice.
pub proof fn law_written_secrets_are_distinct(names: Seq<Seq<char>>, left: int, right: int)
    requires
        resolution_failure(names) is None,
        0 <= left < right < names.len(),
    ensures
        names[left] != names[right],
        is_secret_name(names[left]),
        is_secret_name(names[right]),
        names.len() <= MAXIMUM_SECRET_FILES,
{
    let failures = Seq::new(names.len(), |i: int| resolved_failure(names, i));
    checks::lemma_first_passes(failures, left);
    checks::lemma_first_passes(failures, right);
    assert(!repeats(names, right));
}

/// A secret is named by 1 to 255 letters, digits, dots, hyphens and underscores, but not by one or
/// two dots alone.
pub proof fn law_secret_names_are_path_safe(name: Seq<char>)
    ensures
        is_secret_name(name) <==> {
            let bytes = text::utf8(name);
            &&& 1 <= bytes.len() <= 255
            &&& forall|i: int|
                0 <= i < bytes.len() ==> (48 <= #[trigger] bytes[i] <= 57 || 65 <= bytes[i] <= 90
                    || 97 <= bytes[i] <= 122 || bytes[i] == 45 || bytes[i] == 46 || bytes[i] == 95)
            &&& name != "."@
            &&& name != ".."@
        },
        name_failure(name) is None <==> is_secret_name(name),
{
    let bytes = text::utf8(name);
    assert forall|i: int| 0 <= i < bytes.len() implies (Alphabet::DottedToken.admits(
        #[trigger] bytes[i],
    ) <==> (48 <= bytes[i] <= 57 || 65 <= bytes[i] <= 90 || 97 <= bytes[i] <= 122 || bytes[i] == 45
        || bytes[i] == 46 || bytes[i] == 95)) by {
        text::law_alphabets_hold_their_bytes(bytes[i]);
    }
    if is_secret_name(name) {
        assert forall|i: int| 0 <= i < bytes.len() implies (48 <= #[trigger] bytes[i] <= 57 || 65
            <= bytes[i] <= 90 || 97 <= bytes[i] <= 122 || bytes[i] == 45 || bytes[i] == 46
            || bytes[i] == 95) by {
            assert(Alphabet::DottedToken.admits(bytes[i]));
        }
    }
}

/// A directory of secrets is private exactly where the worker owns it and neither the group nor
/// others may do anything with it.
pub proof fn law_secret_directories_are_private(is_directory: bool, owned: bool, mode: u32)
    ensures
        is_private(is_directory, owned, mode) <==> is_directory && owned && mode % 64 == 0,
{
    assert(mode & 0o077 == 0 <==> mode % 64 == 0) by (bit_vector);
}

/// A listed name is passed over where it is one or two dots, and else accepted exactly where it is
/// text, a secret name, and fewer than 1024 came before it.
pub proof fn law_listed_names_are_bounded(filename: Seq<u8>, count: nat)
    ensures
        is_dots(filename) <==> filename == seq![46u8] || filename == seq![46u8, 46u8],
        is_dots(filename) ==> listing_failure(filename, count) is None,
        !is_dots(filename) ==> (listing_failure(filename, count) is None <==> valid_utf8(filename)
            && is_secret_name(decode_utf8(filename)) && count < 1_024),
{
}

/// A secret is taken exactly where it is a regular file of the worker, the one that was listed, that
/// neither the group nor others may touch, and where it fits.
pub proof fn law_taken_secrets_are_private_files(meter: SecretMeter, facts: SecretFacts)
    requires
        meter.maximum <= usize::MAX,
    ensures
        secret_failure(meter, facts) is None <==> {
            &&& facts.is_file
            &&& facts.same_inode
            &&& facts.owned
            &&& facts.mode % 64 == 0
            &&& meter.total + facts.length <= meter.maximum
        },
{
    let mode = facts.mode;
    assert(mode & 0o077 == 0 <==> mode % 64 == 0) by (bit_vector);
}

/// Resolved secrets are accepted exactly where there are 1 to 1024, each has a secret name and no
/// two have one.
pub proof fn law_resolved_secrets_are_distinct(names: Seq<Seq<char>>)
    ensures
        resolution_failure(names) is None <==> {
            &&& 1 <= names.len() <= 1_024
            &&& forall|i: int| 0 <= i < names.len() ==> is_secret_name(#[trigger] names[i])
            &&& forall|i: int, j: int|
                0 <= i < j < names.len() ==> #[trigger] names[i] != #[trigger] names[j]
        },
{
    let failures = Seq::new(names.len(), |i: int| resolved_failure(names, i));
    checks::lemma_first(failures);
    if resolution_failure(names) is None {
        assert forall|i: int| 0 <= i < names.len() implies is_secret_name(#[trigger] names[i]) by {
            assert(failures[i] is None);
        }
        assert forall|i: int, j: int| 0 <= i < j < names.len() implies #[trigger] names[i]
            != #[trigger] names[j] by {
            assert(failures[j] is None);
        }
    }
    if forall|i: int| 0 <= i < names.len() ==> is_secret_name(#[trigger] names[i]) {
        if forall|i: int, j: int|
            0 <= i < j < names.len() ==> #[trigger] names[i] != #[trigger] names[j] {
            assert forall|i: int| 0 <= i < failures.len() implies #[trigger] failures[i]
                is None by {
                assert(is_secret_name(names[i]));
            }
        }
    }
}

/// Listed secrets are in the order of their names, by their bytes.
pub proof fn law_listed_secrets_are_in_order(entries: Seq<(Seq<char>, u64)>, i: int, j: int)
    requires
        by_name(entries),
        0 <= i < j < entries.len(),
    ensures
        MAXIMUM_SECRET_FILES == 1_024,
        entries[i].0 == entries[j].0 || table::precedes(
            text::utf8(entries[i].0),
            text::utf8(entries[j].0),
        ),
{
    assert(!table::precedes(text::utf8(entries[j].0), text::utf8(entries[i].0)));
    if text::utf8(entries[i].0) != text::utf8(entries[j].0) {
        table::lemma_total(text::utf8(entries[i].0), text::utf8(entries[j].0), 0);
    } else {
        text::lemma_utf8_injective(entries[i].0, entries[j].0);
    }
}

/// Each refusal of a secret is of its kind.
pub proof fn law_refused_secrets_say_why(
    name: Seq<char>,
    filename: Seq<u8>,
    count: nat,
    meter: SecretMeter,
    facts: SecretFacts,
    names: Seq<Seq<char>>,
)
    ensures
        name_failure(name) matches Some(failure) ==> failure == VolumeFailure::Invalid(
            "secret filename is not a bounded path-safe name"@,
        ),
        !is_dots(filename) && !valid_utf8(filename) ==> listing_failure(filename, count) == Some(
            VolumeFailure::Invalid("secret filename is not UTF-8"@),
        ),
        !is_dots(filename) && valid_utf8(filename) && name_failure(decode_utf8(filename)) is None
            && count >= 1_024 ==> listing_failure(filename, count) == Some(
            VolumeFailure::Invalid("secret source contains an invalid file count"@),
        ),
        meter.total + facts.length <= 0xffff_ffff_ffff_ffff && (!facts.is_file || !facts.same_inode
            || !facts.owned || meter.total + facts.length > meter.maximum) ==> secret_failure(
            meter,
            facts,
        ) == Some(
            VolumeFailure::AccessDenied(
                "secret source must contain bounded owner-only regular files"@,
            ),
        ),
        names.len() == 0 || names.len() > 1_024 ==> resolution_failure(names) == Some(
            VolumeFailure::Invalid("secret resolver returned an invalid file count"@),
        ),
{
}

} // verus!
