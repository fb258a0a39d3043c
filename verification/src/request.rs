//! Signed request descriptors.
//!
//! An endpoint operation reduces to a [`RequestDescriptor`]: the path the
//! signature covers, any additional unsigned query suffix, the HTTP method,
//! the raw body string, and the three authentication headers. The HTTP
//! round trip itself is outside this crate; a caller appends
//! `path + extra_query` to the base origin, attaches the headers and the
//! body verbatim, and sends.

use crate::auth::{AuthHeaders, Robinhood};
use vstd::prelude::*;

verus! {

/// The HTTP verbs the API uses.
#[derive(Clone, Copy, Debug, PartialEq, Eq, Structural)]
pub enum HttpMethod {
    Get,
    Post,
}

/// The verb string of a method, as it appears in the signed message.
pub open spec fn method_rep(m: HttpMethod) -> Seq<char> {
    match m {
        HttpMethod::Get => "GET"@,
        HttpMethod::Post => "POST"@,
    }
}

impl HttpMethod {
    /// The verb as an uppercase string.
    pub fn as_str(&self) -> (r: &'static str)
        ensures
            r@ == method_rep(*self),
    {
        match self {
            HttpMethod::Get => "GET",
            HttpMethod::Post => "POST",
        }
    }
}

/// One fully prepared request: what to send, where, and the headers that
/// authenticate it.
pub struct RequestDescriptor {
    /// The path the signature covers, beginning with `/`; where the
    /// operation signs its query parameters they are part of this path.
    pub path: String,
    /// An unsigned query suffix appended to `path` in the request URL;
    /// empty for operations that sign their whole path.
    pub extra_query: String,
    pub method: HttpMethod,
    /// The raw body string, empty for bodyless requests.
    pub body: String,
    pub headers: AuthHeaders,
}

impl RequestDescriptor {
    /// The descriptor authenticates exactly its own path, method and body
    /// under the given credential, at some timestamp.
    pub open spec fn signed_by(&self, rh: &Robinhood) -> bool {
        self.headers.is_for_some_ts(rh, self.path@, method_rep(self.method), self.body@)
    }
}

impl Robinhood {
    /// Sign a prepared path, method and body into a request descriptor,
    /// checking the stored key at run time: `None` exactly when the
    /// credential is not well formed.
    pub fn sign_request(
        &self,
        path: String,
        extra_query: String,
        method: HttpMethod,
        body: String,
    ) -> (r: Option<RequestDescriptor>)
        ensures
            r is Some <==> self.wf(),
            r matches Some(d) ==> {
                &&& d.path@ == path@
                &&& d.extra_query@ == extra_query@
                &&& d.method == method
                &&& d.body@ == body@
                &&& d.signed_by(self)
            },
    {
        match self.try_auth_headers(path.as_str(), method.as_str(), body.as_str()) {
            None => None,
            Some(headers) => Some(RequestDescriptor { path, extra_query, method, body, headers }),
        }
    }
}

} // verus!
