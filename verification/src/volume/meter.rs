//! Files that are hashed and counted as they are read.

use crate::digest;
use crate::digest::Hasher;
use crate::volume::error::{VolumeError, VolumeFailure};
use vstd::prelude::*;

verus! {

/// The identity and the size of a file.
#[derive(Clone, Debug, PartialEq, Eq)]
pub struct FileDigest {
    pub digest: String,
    pub size_bytes: u64,
}

/// A file that is being read. The view is what was read of it.
pub struct FileMeter {
    hasher: Hasher,
    bytes: u64,
}

impl View for FileMeter {
    type V = Seq<u8>;

    closed spec fn view(&self) -> Seq<u8> {
        digest::absorbed(self.hasher)
    }
}

impl FileMeter {
    #[verifier::type_invariant]
    closed spec fn well_formed(self) -> bool {
        self.bytes == digest::absorbed(self.hasher).len()
    }

    pub fn new() -> (r: Self)
        ensures
            r@ == Seq::<u8>::empty(),
    {
        FileMeter { hasher: Hasher::new(), bytes: 0 }
    }

    /// Takes what was read, unless the file has outgrown every size.
    fn push(self, chunk: &[u8]) -> (r: Option<Self>)
        ensures
            match r {
                Some(meter) => meter@ == self@ + chunk@ && (self@ + chunk@).len() <= u64::MAX,
                None => (self@ + chunk@).len() > u64::MAX,
            },
    {
        proof {
            use_type_invariant(&self);
        }
        let FileMeter { mut hasher, bytes } = self;
        match bytes.checked_add(chunk.len() as u64) {
            Some(bytes) => {
                hasher.update(chunk);
                Some(FileMeter { hasher, bytes })
            },
            None => None,
        }
    }

    /// Takes what was read of the backing file of a volume.
    pub fn push_backing(self, chunk: &[u8]) -> (r: Result<Self, VolumeError>)
        ensures
            match r {
                Ok(meter) => meter@ == self@ + chunk@ && (self@ + chunk@).len() <= u64::MAX,
                Err(error) => (self@ + chunk@).len() > u64::MAX && error@
                    == VolumeFailure::Integrity("volume size overflow"@),
            },
    {
        match self.push(chunk) {
            Some(meter) => Ok(meter),
            None => Err(VolumeError::Integrity("volume size overflow".to_owned())),
        }
    }

    /// Takes what was read of an archive.
    pub fn push_archive(self, chunk: &[u8]) -> (r: Result<Self, VolumeError>)
        ensures
            match r {
                Ok(meter) => meter@ == self@ + chunk@ && (self@ + chunk@).len() <= u64::MAX,
                Err(error) => (self@ + chunk@).len() > u64::MAX && error@
                    == VolumeFailure::Invalid("volume size overflow"@),
            },
    {
        match self.push(chunk) {
            Some(meter) => Ok(meter),
            None => Err(VolumeError::Invalid("volume size overflow".to_owned())),
        }
    }

    /// Takes what was read of an artifact that may hold `maximum` bytes.
    pub fn push_artifact(self, chunk: &[u8], maximum: u64) -> (r: Result<Self, VolumeError>)
        ensures
            match r {
                Ok(meter) => meter@ == self@ + chunk@ && (self@ + chunk@).len() <= maximum,
                Err(error) => error@ == VolumeFailure::Invalid(
                    if (self@ + chunk@).len() > u64::MAX {
                        "artifact size overflow"@
                    } else {
                        "artifact exceeds the provider byte limit"@
                    },
                ) && (self@ + chunk@).len() > maximum,
            },
    {
        match self.push(chunk) {
            Some(meter) => {
                proof {
                    use_type_invariant(&meter);
                }
                if meter.bytes > maximum {
                    return Err(
                        VolumeError::Invalid("artifact exceeds the provider byte limit".to_owned()),
                    );
                }
                Ok(meter)
            },
            None => Err(VolumeError::Invalid("artifact size overflow".to_owned())),
        }
    }

    /// The identity and the size of what was read.
    pub fn finish(self) -> (r: FileDigest)
        ensures
            r.digest@ == digest::identity_text(self@),
            digest::is_identity(r.digest@),
            r.size_bytes == self@.len(),
    {
        proof {
            use_type_invariant(&self);
        }
        FileDigest { digest: self.hasher.identity(), size_bytes: self.bytes }
    }
}

} // verus!
