//! The locking capabilities: which implementation backs an opened lock
//! service, the state it is opened with, and the retry of a lock taken
//! with a lease.

use vstd::prelude::*;
use vstd::string::*;
use crate::common::{find_state, state_for, BasicState};
use crate::resource::{new_resource_descriptor, uuid_accepts};

verus! {

/// The implementations that can back the distributed-locking capability.
#[derive(Debug, Clone, Copy, PartialEq, Eq, Structural)]
pub enum DistributedLockingImplementor {
    Etcd,
}

/// The implementation an implementor name selects: both
/// `distributed_locking.etcd` and `lockd.etcd` select etcd.
pub open spec fn locking_implementor_named(name: Seq<char>) -> Option<DistributedLockingImplementor> {
    if name == "distributed_locking.etcd"@ || name == "lockd.etcd"@ {
        Some(DistributedLockingImplementor::Etcd)
    } else {
        None
    }
}

impl DistributedLockingImplementor {
    /// The implementation selected by an implementor name, if it names one.
    pub fn from_name(name: &str) -> (r: Option<DistributedLockingImplementor>)
        ensures
            r == locking_implementor_named(name@),
    {
        proof {
            reveal_strlit("distributed_locking.etcd");
            reveal_strlit("lockd.etcd");
        }
        let n = String::from_str(name);
        if n == String::from_str("distributed_locking.etcd") || n == String::from_str(
            "lockd.etcd",
        ) {
            Some(DistributedLockingImplementor::Etcd)
        } else {
            None
        }
    }
}

/// An opened lock service: the implementation that backs it.
#[derive(Debug, Clone, Copy)]
pub struct DistributedLockingInner {
    pub distributed_locking_implementor: DistributedLockingImplementor,
}

/// The distributed-locking capability: the default implementor and the
/// state configured for each lock service.
#[derive(Debug)]
pub struct DistributedLocking {
    implementor: String,
    capability_store: Vec<(String, BasicState)>,
}

impl DistributedLocking {
    /// The default implementor name.
    pub closed spec fn implementor_name(&self) -> Seq<char> {
        self.implementor@
    }

    /// The configured states, by name.
    pub closed spec fn states(&self) -> Seq<(String, BasicState)> {
        self.capability_store@
    }

    /// The capability with a default implementor and configured states.
    pub fn new(implementor: String, capability_store: Vec<(String, BasicState)>) -> (r:
        DistributedLocking)
        ensures
            r.implementor_name() == implementor@,
            r.states() == capability_store@,
    {
        DistributedLocking { implementor, capability_store }
    }

    /// Whether a lock service can be opened under `name`: a state is
    /// configured for it, and that state names a known implementation.
    pub open spec fn can_open(&self, name: Seq<char>) -> bool {
        &&& state_for(self.states(), name, self.implementor_name()) is Some
        &&& locking_implementor_named(
            state_for(self.states(), name, self.implementor_name())->0.implementor@,
        ) is Some
    }

    /// Opens the lock service `name` with the implementation its state
    /// names.
    pub fn distributed_locking_open(&self, name: &str) -> (r: DistributedLockingInner)
        requires
            self.can_open(name@),
        ensures
            Some(r.distributed_locking_implementor) == locking_implementor_named(
                state_for(self.states(), name@, self.implementor_name())->0.implementor@,
            ),
    {
        let state = match find_state(&self.capability_store, name, self.implementor.as_str()) {
            Some(s) => s,
            None => vstd::pervasive::unreached(),
        };
        match DistributedLockingImplementor::from_name(state.implementor.as_str()) {
            Some(k) => DistributedLockingInner { distributed_locking_implementor: k },
            None => vstd::pervasive::unreached(),
        }
    }
}

/// Whether the lock-service capability accepts an implementor name: only
/// `lockd.etcd`.
pub open spec fn lockd_implementor_named(name: Seq<char>) -> bool {
    name == "lockd.etcd"@
}

/// An opened lock service of the lock-service capability, under a fresh
/// descriptor.
#[derive(Debug)]
pub struct LockdInner {
    pub lockd_implementor: DistributedLockingImplementor,
    pub resource_descriptor: String,
}

/// The lock-service capability: its implementor, and the descriptors of
/// the services opened so far.
#[derive(Debug)]
pub struct Lockd {
    lockd_implementor: String,
    opened: Vec<String>,
}

impl Lockd {
    /// The implementor name.
    pub closed spec fn implementor_name(&self) -> Seq<char> {
        self.lockd_implementor@
    }

    /// The descriptors of the services opened so far, in order.
    pub closed spec fn opened(&self) -> Seq<Seq<char>> {
        self.opened@.map_values(|s: String| s@)
    }

    /// The capability backed by the implementor `lockd_implementor`.
    pub fn new(lockd_implementor: String) -> (r: Lockd)
        ensures
            r.implementor_name() == lockd_implementor@,
            r.opened().len() == 0,
    {
        Lockd { lockd_implementor, opened: Vec::new() }
    }

    /// Opens a lock service under a fresh descriptor, which the capability
    /// records.
    pub fn lockd_open(&mut self) -> (r: LockdInner)
        requires
            lockd_implementor_named(old(self).implementor_name()),
        ensures
            r.lockd_implementor == DistributedLockingImplementor::Etcd,
            uuid_accepts(r.resource_descriptor@),
            final(self).implementor_name() == old(self).implementor_name(),
            final(self).opened() == old(self).opened().push(r.resource_descriptor@),
    {
        let rd = new_resource_descriptor();
        let ghost before = self.opened@;
        self.opened.push(rd.clone());
        proof {
            assert(self.opened@ == before.push(rd));
            assert(self.opened@.map_values(|s: String| s@) =~= before.map_values(|s: String| s@).push(rd@));
        }
        LockdInner { lockd_implementor: DistributedLockingImplementor::Etcd, resource_descriptor: rd }
    }
}

/// What to do after an attempt to take a lock with a lease.
#[derive(Debug)]
pub enum LeaseLockStep {
    /// Grant a new lease and try again.
    Retry,
    /// Stop, with the key of the lock or the error.
    Done(Result<Vec<u8>, String>),
}

/// The step after attempt number `attempt` (counting from 1) of taking a
/// lock with a lease ended with `outcome`: a first attempt that failed,
/// because the lease ran out before the lock was taken, is retried once;
/// any other outcome is final.
pub fn lease_lock_next(attempt: u8, outcome: Result<Vec<u8>, String>) -> (r: LeaseLockStep)
    ensures
        (attempt == 1 && outcome is Err) ==> r is Retry,
        !(attempt == 1 && outcome is Err) ==> (r matches LeaseLockStep::Done(o) && o == outcome),
{
    if attempt == 1 && outcome.is_err() {
        LeaseLockStep::Retry
    } else {
        LeaseLockStep::Done(outcome)
    }
}

} // verus!
