//! A key-value interface whose stores are directories: opening a store
//! records its directory under a fresh descriptor, and every access names
//! the store by that descriptor.

use vstd::prelude::*;
use vstd::string::*;
use crate::events::Observable;
use crate::kv_fs::{join_path, joined_path};
use crate::resource::{missing_key_message, new_resource_descriptor, parse_uuid, uuid_accepts, StateTable};

verus! {

/// Errors of the directory-backed key-value interface.
#[derive(Debug)]
pub enum Error {
    ErrorWithDescription(String),
}

/// The message of a store descriptor that is not a UUID.
pub open spec fn bad_handle_message() -> Seq<char> {
    "internal error: failed to parse internal handle to this resource"@
}

/// The message of a store name that gives no valid path.
pub open spec fn invalid_path_message(name: Seq<char>) -> Seq<char> {
    "failed due to invalid path: "@ + name
}

/// What a store descriptor selects: an error where it is not a UUID or
/// names no opened store, and else the directory of that store.
pub open spec fn directory_outcome(stores: Map<Seq<char>, String>, rd: Seq<char>) -> Result<
    Seq<char>,
    Seq<char>,
> {
    if !uuid_accepts(rd) {
        Err(bad_handle_message())
    } else if !stores.contains_key(rd) {
        Err(missing_key_message(rd))
    } else {
        Ok(stores[rd]@)
    }
}

/// The directory-backed key-value interface: the directory of the store
/// opened last, and the directory of every opened store, by descriptor.
pub struct KvFilesystem {
    inner: Option<String>,
    host_state: StateTable<String>,
}

impl KvFilesystem {
    /// The directory of the store opened last.
    pub closed spec fn current(&self) -> Option<String> {
        self.inner
    }

    /// The directory of each opened store, by descriptor.
    pub closed spec fn stores(&self) -> Map<Seq<char>, String> {
        self.host_state.view()
    }

    /// Whether the table of stores is well formed.
    pub closed spec fn wf(&self) -> bool {
        self.host_state.wf()
    }

    /// The interface before any store is opened.
    pub fn new() -> (r: KvFilesystem)
        ensures
            r.wf(),
            r.current() is None,
            r.stores() == Map::<Seq<char>, String>::empty(),
    {
        KvFilesystem { inner: None, host_state: StateTable::new() }
    }

    /// Opens the store `name`, kept in the directory of that name under
    /// `/tmp`, under a fresh descriptor. A name that gives no valid path is
    /// an error and changes nothing.
    pub fn kv_open(&mut self, name: &str) -> (r: Result<String, Error>)
        requires
            old(self).wf(),
        ensures
            final(self).wf(),
            match joined_path("/tmp"@, name@) {
                None => (r matches Err(Error::ErrorWithDescription(m)) && m@ == invalid_path_message(
                    name@,
                )) && final(self).current() == old(self).current() && final(self).stores()
                    == old(self).stores(),
                Some(d) => (r matches Ok(rd) && uuid_accepts(rd@) && final(self).current() is Some
                    && final(self).current()->0@ == d && final(self).stores() == old(
                    self,
                ).stores().insert(rd@, final(self).current()->0)),
            },
    {
        match join_path("/tmp", name) {
            None => Err(
                Error::ErrorWithDescription(
                    String::from_str("failed due to invalid path: ").concat(name),
                ),
            ),
            Some(dir) => {
                self.open_dir(dir)
            },
        }
    }

    fn open_dir(&mut self, dir: String) -> (r: Result<String, Error>)
        requires
            old(self).wf(),
        ensures
            final(self).wf(),
            r matches Ok(rd) && uuid_accepts(rd@) && final(self).current() == Some(dir)
                && final(self).stores() == old(self).stores().insert(rd@, dir),
    {
        self.inner = Some(dir.clone());
        let rd = new_resource_descriptor();
        self.host_state.set(rd.clone(), dir);
        Ok(rd)
    }

    /// The directory of the store `self_`, under which its keys are files:
    /// a descriptor that is not a UUID, or that names no opened store, is
    /// an error.
    pub fn kv_base(&self, self_: &str) -> (r: Result<String, Error>)
        requires
            self.wf(),
        ensures
            match directory_outcome(self.stores(), self_@) {
                Ok(d) => (r matches Ok(b) && b@ == d),
                Err(msg) => (r matches Err(Error::ErrorWithDescription(m)) && m@ == msg),
            },
    {
        if !parse_uuid(self_) {
            return Err(
                Error::ErrorWithDescription(
                    String::from_str("internal error: failed to parse internal handle to this resource"),
                ),
            );
        }
        match self.host_state.get(self_) {
            Ok(d) => Ok(d.clone()),
            Err(e) => Err(Error::ErrorWithDescription(e.message)),
        }
    }

    /// The observable of `key` in the store `self_`.
    pub fn kv_watch(&self, self_: &str, key: &str) -> (r: Result<Observable, Error>)
        ensures
            r matches Ok(ob) && ob.rd@ == self_@ && ob.key@ == key@,
    {
        Ok(Observable { rd: String::from_str(self_), key: String::from_str(key) })
    }
}

/// A store that was opened under a descriptor is found again under that
/// descriptor, in the directory it was opened with.
pub proof fn lemma_opened_directory_is_found(stores: Map<Seq<char>, String>, rd: Seq<char>, dir: String)
    requires
        uuid_accepts(rd),
    ensures
        directory_outcome(stores.insert(rd, dir), rd) == Ok::<Seq<char>, Seq<char>>(dir@),
{
}

} // verus!
