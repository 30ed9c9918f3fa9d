//! A key-value store kept in files: each key is a file under a base
//! directory, and a store has a single descriptor, 0.

use vstd::prelude::*;
use vstd::string::*;

verus! {

/// The path `base` joined with `name`, as text, by the path rules of the
/// platform the crate is built for; `None` where the joined path is not
/// valid text.
pub uninterp spec fn joined_path(base: Seq<char>, name: Seq<char>) -> Option<Seq<char>>;

/// Joins the path `base` with `name` (`std::path::Path::join`) and gives the
/// result as text (`Path::to_str`). The claim is that the result is a
/// function of the two texts, named `joined_path`, under the path rules
/// fixed when the crate is built.
#[verifier::external_body]
pub(crate) fn join_path(base: &str, name: &str) -> (r: Option<String>)
    ensures
        match r {
            None => joined_path(base@, name@) is None,
            Some(p) => joined_path(base@, name@) == Some(p@),
        },
{
    match std::path::Path::new(base).join(name).to_str() {
        Some(p) => Some(p.to_string()),
        None => None,
    }
}

/// The path of the file that holds the value of the key `name` in the
/// store under the directory `base`.
pub fn path(name: &str, base: &str) -> (r: Option<String>)
    ensures
        match r {
            None => joined_path(base@, name@) is None,
            Some(p) => joined_path(base@, name@) == Some(p@),
        },
{
    join_path(base, name)
}

/// Errors of the file-backed key-value interface.
#[derive(Debug, Clone, Copy, PartialEq, Eq, Structural)]
pub enum Error {
    Success,
    Error,
}

/// A key-value store whose values are the files under the directory
/// `path`.
#[allow(non_camel_case_types)]
#[derive(Debug)]
pub struct KV_FS {
    path: String,
}

impl Default for KV_FS {
    fn default() -> (r: KV_FS)
        ensures
            r.base()@ == Seq::<char>::empty(),
    {
        KV_FS { path: String::new() }
    }
}

impl KV_FS {
    /// The directory that holds the store's files.
    pub closed spec fn base(&self) -> String {
        self.path
    }

    /// The store kept under the directory `path`.
    pub fn new(path: String) -> (r: KV_FS)
        ensures
            r.base() == path,
    {
        KV_FS { path }
    }

    /// The directory that holds the store's files.
    pub fn path(&self) -> (r: &str)
        ensures
            r@ == self.base()@,
    {
        self.path.as_str()
    }

    /// Opens the store: its one descriptor is 0.
    pub fn get_kv(&mut self) -> (r: Result<u64, Error>)
        ensures
            r == Ok::<u64, Error>(0),
            final(self).base() == old(self).base(),
    {
        Ok(0)
    }

    /// Accepts the descriptor of the store, 0, and refuses any other.
    pub fn check_descriptor(&self, rd: &u64) -> (r: Result<(), Error>)
        ensures
            r is Ok <==> *rd == 0,
            r matches Err(e) ==> e == Error::Error,
    {
        if *rd != 0 {
            return Err(Error::Error);
        }
        Ok(())
    }

    /// The value of a key, from what reading its file gave: a file that
    /// could not be opened is a key without a value, read as empty; a file
    /// that was opened gives its contents, and a failed read is an error.
    pub fn read_outcome(&self, file: Option<Result<Vec<u8>, ()>>) -> (r: Result<Vec<u8>, Error>)
        ensures
            match file {
                None => r matches Ok(v) && v@.len() == 0,
                Some(Ok(bytes)) => r matches Ok(v) && v@ == bytes@,
                Some(Err(())) => r == Err::<Vec<u8>, Error>(Error::Error),
            },
    {
        match file {
            None => Ok(Vec::new()),
            Some(Ok(bytes)) => Ok(bytes),
            Some(Err(())) => Err(Error::Error),
        }
    }
}

} // verus!
