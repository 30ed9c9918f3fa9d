//! The values passed between the host and a guest's HTTP handler: the
//! request the handler is called with, the response it returns, and the
//! owned header and body buffers a request is built from.

use vstd::prelude::*;
use vstd::string::*;
use crate::text::str_eq;

verus! {

/// The HTTP methods a guest handler can be called for.
#[derive(Debug, Clone, Copy, PartialEq, Eq, Structural)]
pub enum Method {
    Get,
    Post,
    Put,
    Delete,
    Patch,
    Head,
    Options,
}

/// The standard name of each method, as HTTP writes it.
pub open spec fn method_name(m: Method) -> Seq<char> {
    match m {
        Method::Get => "GET"@,
        Method::Post => "POST"@,
        Method::Put => "PUT"@,
        Method::Delete => "DELETE"@,
        Method::Patch => "PATCH"@,
        Method::Head => "HEAD"@,
        Method::Options => "OPTIONS"@,
    }
}

/// The method whose standard name is `name`, if any.
pub open spec fn method_named(name: Seq<char>) -> Option<Method> {
    if name == "GET"@ {
        Some(Method::Get)
    } else if name == "POST"@ {
        Some(Method::Post)
    } else if name == "PUT"@ {
        Some(Method::Put)
    } else if name == "DELETE"@ {
        Some(Method::Delete)
    } else if name == "PATCH"@ {
        Some(Method::Patch)
    } else if name == "HEAD"@ {
        Some(Method::Head)
    } else if name == "OPTIONS"@ {
        Some(Method::Options)
    } else {
        None
    }
}

impl Method {
    /// The standard name of the method.
    pub fn name(&self) -> (r: &'static str)
        ensures
            r@ == method_name(*self),
    {
        match self {
            Method::Get => "GET",
            Method::Post => "POST",
            Method::Put => "PUT",
            Method::Delete => "DELETE",
            Method::Patch => "PATCH",
            Method::Head => "HEAD",
            Method::Options => "OPTIONS",
        }
    }

    /// The method with the standard name `name`; `None` for any other
    /// method, which a guest handler cannot be called for.
    pub fn from_name(name: &str) -> (r: Option<Method>)
        ensures
            r == method_named(name@),
    {
        if str_eq(name, "GET") {
            Some(Method::Get)
        } else if str_eq(name, "POST") {
            Some(Method::Post)
        } else if str_eq(name, "PUT") {
            Some(Method::Put)
        } else if str_eq(name, "DELETE") {
            Some(Method::Delete)
        } else if str_eq(name, "PATCH") {
            Some(Method::Patch)
        } else if str_eq(name, "HEAD") {
            Some(Method::Head)
        } else if str_eq(name, "OPTIONS") {
            Some(Method::Options)
        } else {
            None
        }
    }
}

/// The request a guest handler is called with.
#[derive(Debug, Clone, Copy)]
pub struct Request<'a> {
    pub method: Method,
    pub uri: &'a str,
    pub headers: &'a [(&'a str, &'a str)],
    pub params: &'a [(&'a str, &'a str)],
    pub body: Option<&'a [u8]>,
}

/// The response a guest handler returns.
#[derive(Debug)]
pub struct Response {
    pub status: u16,
    pub headers: Option<Vec<(String, String)>>,
    pub body: Option<Vec<u8>>,
}

/// Errors a guest handler reports.
#[derive(Debug)]
pub enum Error {
    ErrorWithDescription(String),
}

/// Auxiliary data of the handler's wasm exports; it holds nothing.
#[derive(Debug)]
pub struct HttpHandlerData {}

impl Default for HttpHandlerData {
    fn default() -> (r: HttpHandlerData)
        ensures
            r == (HttpHandlerData {}),
    {
        HttpHandlerData {}
    }
}

/// The headers of a request, as name and value pairs in their order.
pub struct HttpHeader<'a>(pub Vec<(&'a str, &'a str)>);

impl<'a> HttpHeader<'a> {
    /// Headers holding the given pairs.
    pub fn new(pairs: Vec<(&'a str, &'a str)>) -> (r: HttpHeader<'a>)
        ensures
            r.0@ == pairs@,
    {
        HttpHeader(pairs)
    }

    /// The pairs, in their order.
    pub fn inner(self) -> (r: Vec<(&'a str, &'a str)>)
        ensures
            r@ == self.0@,
    {
        self.0
    }
}

/// The body of a request, owned.
pub struct HttpBody(pub Vec<u8>);

/// Why a request body cannot be read.
#[derive(Debug, Clone, Copy, PartialEq, Eq, Structural)]
pub enum BodyError {
    /// The body gives no upper bound on its size.
    UnknownSize,
    /// The body may be larger than the largest size allowed.
    TooLarge { size: u64, allowed: u64 },
}

/// The largest body size that is read.
pub const MAX_ALLOWED_SIZE: u64 = 0xffff_ffff_ffff_ffffu64;

impl HttpBody {
    /// A body holding the given bytes.
    pub fn new(bytes: Vec<u8>) -> (r: HttpBody)
        ensures
            r.0@ == bytes@,
    {
        HttpBody(bytes)
    }

    /// The bytes of the body.
    pub fn inner(self) -> (r: Vec<u8>)
        ensures
            r@ == self.0@,
    {
        self.0
    }

    /// Decides from the upper bound of a body's size hint whether the body
    /// is read: it is when the bound is known and below the largest allowed
    /// size.
    pub fn check_size_hint(upper: Option<u64>) -> (r: Result<u64, BodyError>)
        ensures
            match upper {
                None => r == Err::<u64, BodyError>(BodyError::UnknownSize),
                Some(v) => if v < MAX_ALLOWED_SIZE {
                    r == Ok::<u64, BodyError>(v)
                } else {
                    r == Err::<u64, BodyError>(
                        BodyError::TooLarge { size: v, allowed: MAX_ALLOWED_SIZE },
                    )
                },
            },
    {
        match upper {
            None => Err(BodyError::UnknownSize),
            Some(v) => if v < MAX_ALLOWED_SIZE {
                Ok(v)
            } else {
                Err(BodyError::TooLarge { size: v, allowed: MAX_ALLOWED_SIZE })
            },
        }
    }
}

/// Every method is found again from its standard name.
pub proof fn lemma_method_name_round_trip(m: Method)
    ensures
        method_named(method_name(m)) == Some(m),
{
    reveal_strlit("GET");
    reveal_strlit("POST");
    reveal_strlit("PUT");
    reveal_strlit("DELETE");
    reveal_strlit("PATCH");
    reveal_strlit("HEAD");
    reveal_strlit("OPTIONS");
    let names = seq!["GET"@, "POST"@, "PUT"@, "DELETE"@, "PATCH"@, "HEAD"@, "OPTIONS"@];
    assert forall|i: int, j: int| 0 <= i < j < 7 implies names[i] != names[j] by {
        if names[i].len() == names[j].len() {
            assert(names[i][0] != names[j][0]);
        }
    }
    assert(names[0] != names[1] && names[0] != names[2] && names[1] != names[2]);
    assert(names[3] != names[0] && names[3] != names[1] && names[3] != names[2]);
    assert(names[4] != names[0] && names[4] != names[1] && names[4] != names[2] && names[4]
        != names[3]);
    assert(names[5] != names[0] && names[5] != names[1] && names[5] != names[2] && names[5]
        != names[3] && names[5] != names[4]);
    assert(names[6] != names[0] && names[6] != names[1] && names[6] != names[2] && names[6]
        != names[3] && names[6] != names[4] && names[6] != names[5]);
}

/// Each method is named by its own HTTP token, and each token names its own
/// method: `GET`, `POST`, `PUT`, `DELETE`, `PATCH`, `HEAD` and `OPTIONS`.
pub proof fn lemma_method_tokens()
    ensures
        method_name(Method::Get) == seq!['G', 'E', 'T'],
        method_name(Method::Post) == seq!['P', 'O', 'S', 'T'],
        method_name(Method::Put) == seq!['P', 'U', 'T'],
        method_name(Method::Delete) == seq!['D', 'E', 'L', 'E', 'T', 'E'],
        method_name(Method::Patch) == seq!['P', 'A', 'T', 'C', 'H'],
        method_name(Method::Head) == seq!['H', 'E', 'A', 'D'],
        method_name(Method::Options) == seq!['O', 'P', 'T', 'I', 'O', 'N', 'S'],
        method_named(seq!['G', 'E', 'T']) == Some(Method::Get),
        method_named(seq!['P', 'O', 'S', 'T']) == Some(Method::Post),
        method_named(seq!['P', 'U', 'T']) == Some(Method::Put),
        method_named(seq!['D', 'E', 'L', 'E', 'T', 'E']) == Some(Method::Delete),
        method_named(seq!['P', 'A', 'T', 'C', 'H']) == Some(Method::Patch),
        method_named(seq!['H', 'E', 'A', 'D']) == Some(Method::Head),
        method_named(seq!['O', 'P', 'T', 'I', 'O', 'N', 'S']) == Some(Method::Options),
{
    reveal_strlit("GET");
    reveal_strlit("POST");
    reveal_strlit("PUT");
    reveal_strlit("DELETE");
    reveal_strlit("PATCH");
    reveal_strlit("HEAD");
    reveal_strlit("OPTIONS");
    assert("GET"@ =~= seq!['G', 'E', 'T']);
    assert("POST"@ =~= seq!['P', 'O', 'S', 'T']);
    assert("PUT"@ =~= seq!['P', 'U', 'T']);
    assert("DELETE"@ =~= seq!['D', 'E', 'L', 'E', 'T', 'E']);
    assert("PATCH"@ =~= seq!['P', 'A', 'T', 'C', 'H']);
    assert("HEAD"@ =~= seq!['H', 'E', 'A', 'D']);
    assert("OPTIONS"@ =~= seq!['O', 'P', 'T', 'I', 'O', 'N', 'S']);
    lemma_method_name_round_trip(Method::Get);
    lemma_method_name_round_trip(Method::Post);
    lemma_method_name_round_trip(Method::Put);
    lemma_method_name_round_trip(Method::Delete);
    lemma_method_name_round_trip(Method::Patch);
    lemma_method_name_round_trip(Method::Head);
    lemma_method_name_round_trip(Method::Options);
}

} // verus!
