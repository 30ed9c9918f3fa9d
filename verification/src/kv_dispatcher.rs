//! A key-value interface that picks its backend by the scheme of the URL a
//! store is opened with.

use vstd::prelude::*;
use vstd::string::*;

verus! {

#[verifier::external_type_specification]
#[verifier::external_body]
pub struct ExUrlParseError(url::ParseError);

/// The scheme of the URL `s` (lower-cased, without the `:`), or `None`
/// where `url::Url::parse` refuses `s`.
pub uninterp spec fn url_scheme_of(s: Seq<char>) -> Option<Seq<char>>;

/// Parses `s` as a URL and gives its scheme (`url::Url::parse`, then
/// `Url::scheme`). The claim is that both the outcome and the scheme are
/// functions of the text alone, named `url_scheme_of`; the crate documents
/// the scheme as lower-cased ASCII, which is not stated here.
#[verifier::external_body]
fn url_scheme(s: &str) -> (r: Result<String, url::ParseError>)
    ensures
        match r {
            Ok(scheme) => url_scheme_of(s@) == Some(scheme@),
            Err(_) => url_scheme_of(s@) is None,
        },
{
    match url::Url::parse(s) {
        Ok(u) => Ok(u.scheme().to_string()),
        Err(e) => Err(e),
    }
}

/// Errors of the dispatching key-value interface.
#[derive(Debug, Clone, Copy, PartialEq, Eq, Structural)]
pub enum Error {
    OtherError,
    IoError,
}

/// The backend a store is kept in, with the URL it was opened with.
#[derive(Debug)]
pub enum ResourceDescriptor {
    AzureBlob(String),
    Filesystem(String),
}

/// The key-value interface that dispatches each store to its backend.
#[derive(Debug)]
pub struct KvDispatcher {}

impl KvDispatcher {
    /// Opens the store at `url`, which must parse as a URL: its scheme
    /// picks the backend, and a scheme other than `azblob` and `file` is an
    /// error.
    pub fn get_kv(&mut self, url: &str) -> (r: Result<ResourceDescriptor, Error>)
        requires
            url_scheme_of(url@) is Some,
        ensures
            match r {
                Ok(ResourceDescriptor::AzureBlob(u)) => url_scheme_of(url@) == Some("azblob"@)
                    && u@ == url@,
                Ok(ResourceDescriptor::Filesystem(u)) => url_scheme_of(url@) == Some("file"@)
                    && u@ == url@,
                Err(e) => e == Error::OtherError && url_scheme_of(url@) != Some("azblob"@)
                    && url_scheme_of(url@) != Some("file"@),
            },
    {
        let scheme = match url_scheme(url) {
            Ok(s) => s,
            Err(_) => vstd::pervasive::unreached(),
        };
        proof {
            reveal_strlit("azblob");
            reveal_strlit("file");
        }
        if scheme == String::from_str("azblob") {
            Ok(ResourceDescriptor::AzureBlob(String::from_str(url)))
        } else if scheme == String::from_str("file") {
            Ok(ResourceDescriptor::Filesystem(String::from_str(url)))
        } else {
            Err(Error::OtherError)
        }
    }

    /// Opens the store at `url` as `get_kv` does, or gives `None` where
    /// `url` does not parse as a URL.
    pub fn try_get_kv(&mut self, url: &str) -> (r: Option<Result<ResourceDescriptor, Error>>)
        ensures
            r is None <==> url_scheme_of(url@) is None,
            match r {
                Some(Ok(ResourceDescriptor::AzureBlob(u))) => url_scheme_of(url@) == Some(
                    "azblob"@,
                ) && u@ == url@,
                Some(Ok(ResourceDescriptor::Filesystem(u))) => url_scheme_of(url@) == Some(
                    "file"@,
                ) && u@ == url@,
                Some(Err(e)) => e == Error::OtherError && url_scheme_of(url@) != Some("azblob"@)
                    && url_scheme_of(url@) != Some("file"@),
                None => true,
            },
    {
        match url_scheme(url) {
            Ok(_) => Some(self.get_kv(url)),
            Err(_) => None,
        }
    }
}

} // verus!
