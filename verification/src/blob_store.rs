//! The blob-store capability: which implementation backs it, the state a
//! container is opened with, and what an S3-backed container makes of the
//! service's answers.

use vstd::prelude::*;
use vstd::string::*;
use crate::common::{find_state, state_for, BasicState};

verus! {

/// The implementations that can back the blob store.
#[derive(Debug, Clone, Copy, PartialEq, Eq, Structural)]
pub enum BlobStoreImplementors {
    S3,
    Unset,
}

impl Default for BlobStoreImplementors {
    fn default() -> (r: BlobStoreImplementors)
        ensures
            r == BlobStoreImplementors::Unset,
    {
        BlobStoreImplementors::Unset
    }
}

/// The implementor name of the S3 implementation.
pub open spec fn s3_name() -> Seq<char> {
    "blobstore.aws_s3"@
}

/// The implementation an implementor name selects.
pub open spec fn blobstore_implementor_named(name: Seq<char>) -> Option<BlobStoreImplementors> {
    if name == s3_name() {
        Some(BlobStoreImplementors::S3)
    } else {
        None
    }
}

impl BlobStoreImplementors {
    /// The implementation selected by an implementor name, if it names one.
    pub fn from_name(name: &str) -> (r: Option<BlobStoreImplementors>)
        ensures
            r == blobstore_implementor_named(name@),
    {
        if String::from_str(name) == String::from_str("blobstore.aws_s3") {
            Some(BlobStoreImplementors::S3)
        } else {
            proof {
                reveal_strlit("blobstore.aws_s3");
            }
            None
        }
    }

    /// The implementor name of a chosen implementation.
    pub fn name(&self) -> (r: &'static str)
        requires
            *self == BlobStoreImplementors::S3,
        ensures
            r@ == s3_name(),
    {
        proof {
            reveal_strlit("blobstore.aws_s3");
        }
        "blobstore.aws_s3"
    }
}

/// The blob-store capability: its implementation and the state configured
/// for each container.
#[derive(Debug)]
pub struct BlobStore {
    implementor: BlobStoreImplementors,
    capability_store: Vec<(String, BasicState)>,
}

impl Default for BlobStore {
    fn default() -> (r: BlobStore)
        ensures
            r.implementor() == BlobStoreImplementors::Unset,
            r.states().len() == 0,
    {
        BlobStore { implementor: BlobStoreImplementors::Unset, capability_store: Vec::new() }
    }
}

impl BlobStore {
    /// The implementation of the capability.
    pub closed spec fn implementor(&self) -> BlobStoreImplementors {
        self.implementor
    }

    /// The configured states, by name.
    pub closed spec fn states(&self) -> Seq<(String, BasicState)> {
        self.capability_store@
    }

    /// The capability backed by the implementation that `implementor`
    /// names, which must be a known one.
    pub fn new(implementor: String, store: Vec<(String, BasicState)>) -> (r: BlobStore)
        requires
            blobstore_implementor_named(implementor@) is Some,
        ensures
            Some(r.implementor()) == blobstore_implementor_named(implementor@),
            r.states() == store@,
    {
        let kind = match BlobStoreImplementors::from_name(implementor.as_str()) {
            Some(k) => k,
            None => BlobStoreImplementors::Unset,
        };
        BlobStore { implementor: kind, capability_store: store }
    }

    /// The state the container `name` is opened with: the one configured
    /// under its name, or else the one configured under the
    /// implementation's name.
    pub fn fetch_state(&self, name: &str) -> (r: &BasicState)
        requires
            self.implementor() == BlobStoreImplementors::S3,
            state_for(self.states(), name@, s3_name()) is Some,
        ensures
            state_for(self.states(), name@, s3_name()) == Some(*r),
    {
        let s = self.implementor.name();
        match find_state(&self.capability_store, name, s) {
            Some(st) => st,
            None => vstd::pervasive::unreached(),
        }
    }

    /// The implementation that backs the container `name`: the one the
    /// container's state names.
    pub fn container_implementor(&self, name: &str) -> (r: BlobStoreImplementors)
        requires
            self.implementor() == BlobStoreImplementors::S3,
            state_for(self.states(), name@, s3_name()) is Some,
            blobstore_implementor_named(
                state_for(self.states(), name@, s3_name())->0.implementor@,
            ) is Some,
        ensures
            Some(r) == blobstore_implementor_named(
                state_for(self.states(), name@, s3_name())->0.implementor@,
            ),
    {
        let st = self.fetch_state(name);
        match BlobStoreImplementors::from_name(st.implementor.as_str()) {
            Some(k) => k,
            None => vstd::pervasive::unreached(),
        }
    }
}

/// What the store says of a container.
#[derive(Debug, Clone)]
pub struct ContainerMetadata {
    pub name: String,
    pub created_at: u64,
}

impl ContainerMetadata {
    /// The metadata of a bucket with the given name and creation time (in
    /// seconds since the epoch), either of which the service may leave out:
    /// a missing name reads as empty, a missing time as 0.
    pub fn from_bucket(name: Option<String>, creation_secs: Option<i64>) -> (r: ContainerMetadata)
        ensures
            r.name@ == (match name {
                Some(n) => n@,
                None => Seq::<char>::empty(),
            }),
            r.created_at == (match creation_secs {
                Some(s) => s as u64,
                None => 0u64,
            }),
    {
        let created_at: u64 = match creation_secs {
            Some(s) => s as u64,
            None => 0,
        };
        let name = match name {
            Some(n) => n,
            None => String::new(),
        };
        ContainerMetadata { name, created_at }
    }
}

/// The name of a bucket as the service lists it, a missing name read as
/// empty.
pub open spec fn bucket_name(b: Option<String>) -> Seq<char> {
    match b {
        Some(n) => n@,
        None => Seq::<char>::empty(),
    }
}

/// The message of a container that the service does not list.
pub open spec fn container_not_found(name: Seq<char>) -> Seq<char> {
    "container "@ + name + " not found"@
}

/// The position of the bucket the container `name` maps to: the first
/// listed bucket of that name.
pub fn find_bucket(buckets: &Vec<Option<String>>, name: &str) -> (r: Result<usize, String>)
    ensures
        match r {
            Ok(i) => i < buckets.len() && bucket_name(buckets@[i as int]) == name@ && forall|j: int|
                0 <= j < i ==> bucket_name(#[trigger] buckets@[j]) != name@,
            Err(m) => m@ == container_not_found(name@) && forall|j: int|
                0 <= j < buckets.len() ==> bucket_name(#[trigger] buckets@[j]) != name@,
        },
{
    let target = String::from_str(name);
    let mut i: usize = 0;
    while i < buckets.len()
        invariant
            i <= buckets.len(),
            target@ == name@,
            forall|j: int| 0 <= j < i ==> bucket_name(#[trigger] buckets@[j]) != name@,
        decreases buckets.len() - i,
    {
        let found = match &buckets[i] {
            Some(n) => *n == target,
            None => String::new() == target,
        };
        if found {
            return Ok(i);
        }
        i = i + 1;
    }
    Err(String::from_str("container ").concat(name).concat(" not found"))
}

/// How a request for an object failed.
#[derive(Debug)]
pub enum GetObjectFailure {
    /// The bucket holds no object under the key.
    NoSuchKey,
    /// Any other failure, with its message.
    Other(String),
}

/// Whether an object exists, from the outcome of a request for it: a
/// request that succeeds finds it, one that fails for want of the key does
/// not, and any other failure is passed on.
pub fn key_exists(outcome: Result<(), GetObjectFailure>) -> (r: Result<bool, String>)
    ensures
        match outcome {
            Ok(()) => r == Ok::<bool, String>(true),
            Err(GetObjectFailure::NoSuchKey) => r == Ok::<bool, String>(false),
            Err(GetObjectFailure::Other(m)) => r matches Err(e) && e@ == m@,
        },
{
    match outcome {
        Ok(()) => Ok(true),
        Err(GetObjectFailure::NoSuchKey) => Ok(false),
        Err(GetObjectFailure::Other(m)) => Err(m),
    }
}

/// What a read of `size` bytes of an object gives, from the object's
/// advertised length and the body the service sent: nothing for a read of
/// no bytes, the whole body for a read longer than the object, and else the
/// body cut to `size` bytes.
pub fn read_window(size: u64, content_length: u64, body: Vec<u8>) -> (r: Option<Vec<u8>>)
    ensures
        r matches Some(v) && v@ == (if size == 0 {
            Seq::<u8>::empty()
        } else if size > content_length {
            body@
        } else if size < body@.len() {
            body@.take(size as int)
        } else {
            body@
        }),
{
    if size == 0 {
        Some(Vec::new())
    } else if size > content_length {
        Some(body)
    } else {
        let mut res = body;
        if (size as u128) < (res.len() as u128) {
            res.truncate(size as usize);
        }
        Some(res)
    }
}

} // verus!
