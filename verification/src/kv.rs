//! The key-value capability: which implementation backs an opened store,
//! the commands a Redis-backed store sends, and how it reads their replies.

use vstd::prelude::*;
use vstd::string::*;
use vstd::slice::slice_to_vec;
use crate::common::{find_state, state_for, BasicState};
use crate::resource::{new_resource_descriptor, uuid_accepts, StateTable};
use crate::text::str_eq;

verus! {

/// Errors of the key-value capability.
#[derive(Debug)]
pub enum Error {
    ErrorWithDescription(String),
}

/// A command a Redis-backed store sends to the server.
#[derive(Debug)]
pub enum RedisCommand {
    /// `GET key`
    Get { key: String },
    /// `SET key value`
    SetValue { key: String, value: Vec<u8> },
    /// `DEL key`
    Del { key: String },
    /// `KEYS pattern`
    Keys { pattern: String },
}

/// The message of a read of a key that holds no value.
pub open spec fn key_not_found_message() -> Seq<char> {
    "key not found"@
}

/// A store backed by a Redis server, whose keys are the store's keys as
/// they are.
#[derive(Debug)]
pub struct RedisImplementor {}

impl RedisImplementor {
    /// A store backed by the Redis server of the configuration.
    pub fn new() -> (r: RedisImplementor) {
        RedisImplementor {}
    }

    /// The command that reads `key`.
    pub fn get(&self, key: &str) -> (r: RedisCommand)
        ensures
            r matches RedisCommand::Get { key: k } && k@ == key@,
    {
        RedisCommand::Get { key: String::from_str(key) }
    }

    /// The command that writes `value` under `key`.
    pub fn set(&self, key: &str, value: &[u8]) -> (r: RedisCommand)
        ensures
            r matches RedisCommand::SetValue { key: k, value: v } && k@ == key@ && v@ == value@,
    {
        RedisCommand::SetValue { key: String::from_str(key), value: slice_to_vec(value) }
    }

    /// The command that deletes `key`.
    pub fn delete(&self, key: &str) -> (r: RedisCommand)
        ensures
            r matches RedisCommand::Del { key: k } && k@ == key@,
    {
        RedisCommand::Del { key: String::from_str(key) }
    }

    /// The value a read returns given the server's reply: Redis answers a
    /// read of a missing key with nothing, which is reported as an error.
    pub fn get_reply(&self, reply: Vec<u8>) -> (r: Result<Vec<u8>, Error>)
        ensures
            reply@.len() > 0 ==> (r matches Ok(v) && v@ == reply@),
            reply@.len() == 0 ==> (r matches Err(Error::ErrorWithDescription(m)) && m@
                == key_not_found_message()),
    {
        if reply.len() == 0 {
            return Err(Error::ErrorWithDescription(String::from_str("key not found")));
        }
        Ok(reply)
    }
}

/// A store kept in files: each key is a file under the directory `base`.
#[derive(Debug)]
pub struct FilesystemImplementor {
    /// The directory under which the store's files are kept.
    pub base: String,
}

impl FilesystemImplementor {
    /// The store kept under the directory `base`.
    pub fn new(base: String) -> (r: FilesystemImplementor)
        ensures
            r.base == base,
    {
        FilesystemImplementor { base }
    }
}

/// The implementations that can back a key-value store.
#[derive(Debug, Clone, Copy, PartialEq, Eq, Structural)]
pub enum KvImplementors {
    Filesystem,
    AzBlob,
    AwsDynamoDb,
    Redis,
}

/// The implementation an implementor name selects.
pub open spec fn kv_implementor_named(name: Seq<char>) -> Option<KvImplementors> {
    if name == "kv.filesystem"@ {
        Some(KvImplementors::Filesystem)
    } else if name == "kv.azblob"@ {
        Some(KvImplementors::AzBlob)
    } else if name == "kv.awsdynamodb"@ {
        Some(KvImplementors::AwsDynamoDb)
    } else if name == "kv.redis"@ {
        Some(KvImplementors::Redis)
    } else {
        None
    }
}

impl KvImplementors {
    /// The implementation selected by an implementor name, if it names one.
    pub fn from_name(name: &str) -> (r: Option<KvImplementors>)
        ensures
            r == kv_implementor_named(name@),
    {
        if str_eq(name, "kv.filesystem") {
            Some(KvImplementors::Filesystem)
        } else if str_eq(name, "kv.azblob") {
            Some(KvImplementors::AzBlob)
        } else if str_eq(name, "kv.awsdynamodb") {
            Some(KvImplementors::AwsDynamoDb)
        } else if str_eq(name, "kv.redis") {
            Some(KvImplementors::Redis)
        } else {
            None
        }
    }
}

/// An opened store: the implementation that backs it and the descriptor
/// that names it among the host's resources.
#[derive(Debug)]
pub struct KvInner {
    pub kv_implementor: KvImplementors,
    pub resource_descriptor: String,
    pub name: String,
}

/// The key-value capability: the default implementor, the state
/// configured for each store, and the implementation of every opened store,
/// by descriptor.
pub struct Kv {
    implementor: String,
    capability_store: Vec<(String, BasicState)>,
    resource_map: StateTable<KvImplementors>,
}

/// An observable of a key of an opened store.
#[derive(Debug)]
pub struct Observable {
    pub rd: String,
    pub key: String,
}

impl Kv {
    /// The default implementor name.
    pub closed spec fn implementor_name(&self) -> Seq<char> {
        self.implementor@
    }

    /// The configured states, by name.
    pub closed spec fn states(&self) -> Seq<(String, BasicState)> {
        self.capability_store@
    }

    /// The implementation of every opened store, by descriptor.
    pub closed spec fn resources(&self) -> Map<Seq<char>, KvImplementors> {
        self.resource_map.view()
    }

    /// Whether the table of opened stores is well formed.
    pub closed spec fn wf(&self) -> bool {
        self.resource_map.wf()
    }

    /// The capability with a default implementor and configured states, and
    /// no store opened yet.
    pub fn new(implementor: String, kv_store: Vec<(String, BasicState)>) -> (r: Kv)
        ensures
            r.wf(),
            r.implementor_name() == implementor@,
            r.states() == kv_store@,
            r.resources() == Map::<Seq<char>, KvImplementors>::empty(),
    {
        Kv { implementor, capability_store: kv_store, resource_map: StateTable::new() }
    }

    /// Whether a store can be opened under `name`: a state is configured
    /// for it, and that state names a known implementation.
    pub open spec fn can_open(&self, name: Seq<char>) -> bool {
        &&& state_for(self.states(), name, self.implementor_name()) is Some
        &&& kv_implementor_named(
            state_for(self.states(), name, self.implementor_name())->0.implementor@,
        ) is Some
    }

    /// Opens the store named `name` with the state configured for it, under
    /// a fresh descriptor, and records the store under that descriptor.
    pub fn kv_open(&mut self, name: &str) -> (r: Result<KvInner, Error>)
        requires
            old(self).wf(),
            old(self).can_open(name@),
        ensures
            final(self).wf(),
            final(self).implementor_name() == old(self).implementor_name(),
            final(self).states() == old(self).states(),
            r matches Ok(inner) && Some(inner.kv_implementor) == kv_implementor_named(
                state_for(old(self).states(), name@, old(self).implementor_name())->0.implementor@,
            ) && uuid_accepts(inner.resource_descriptor@) && inner.name@ == name@
                && final(self).resources() == old(self).resources().insert(
                inner.resource_descriptor@,
                inner.kv_implementor,
            ),
    {
        let state = find_state(&self.capability_store, name, self.implementor.as_str());
        let state = match state {
            Some(s) => s,
            None => {
                assert(false);
                return Err(Error::ErrorWithDescription(String::new()));
            },
        };
        let kind = match KvImplementors::from_name(state.implementor.as_str()) {
            Some(k) => k,
            None => {
                assert(false);
                return Err(Error::ErrorWithDescription(String::new()));
            },
        };
        let rd = new_resource_descriptor();
        self.resource_map.set(rd.clone(), kind);
        Ok(KvInner { kv_implementor: kind, resource_descriptor: rd, name: String::from_str(name) })
    }

    /// The observable of `key` in the store `self_`.
    pub fn kv_watch(&self, self_: &KvInner, key: &str) -> (r: Result<Observable, Error>)
        ensures
            r matches Ok(ob) && ob.rd == self_.resource_descriptor && ob.key@ == key@,
    {
        Ok(Observable { rd: self_.resource_descriptor.clone(), key: String::from_str(key) })
    }
}

} // verus!
