//! Building the HTTP client that carries the default headers and the
//! redirect policy.

use crate::error::Failure;
use crate::http::header::Header;
use reqwest::header::{HeaderMap, HeaderName, HeaderValue};
use reqwest::redirect::Policy;
use reqwest::Client;
use vstd::prelude::*;

verus! {

#[verifier::external_type_specification]
#[verifier::external_body]
pub struct ExClient(Client);

#[verifier::external_type_specification]
#[verifier::external_body]
pub struct ExClientError(reqwest::Error);

/// Calls `reqwest::ClientBuilder::build` on a builder that was given the
/// headers as default headers and, where there is one, the redirect policy.
/// Whether a client comes back depends on the machine, so nothing is claimed
/// of the result. Each header holds one of three fixed names and a value
/// that was accepted before, so the conversions do not fail.
#[verifier::external_body]
fn build(headers: &Vec<Header>, policy: Option<Policy>) -> Result<Client, reqwest::Error> {
    let mut map = HeaderMap::new();
    for h in headers {
        let name = HeaderName::from_bytes(h.field().name().as_bytes()).unwrap();
        map.insert(name, HeaderValue::from_str(h.value()).unwrap());
    }
    let builder = Client::builder().default_headers(map);
    match policy {
        Some(p) => builder.redirect(p).build(),
        None => builder.build(),
    }
}

/// Builds a client that sends `headers` with every request and follows
/// redirects by `policy`, or by the client's own default where there is
/// none.
pub(crate) fn client(headers: &Vec<Header>, policy: Option<Policy>) -> (r: Result<Client, Failure>)
    ensures
        r is Err ==> r == Err::<Client, Failure>(Failure::ClientUnavailable),
{
    available(build(headers, policy))
}

/// What becomes of an attempt to build a client: the client that was built
/// is handed on as it is, and any failure to build one is reported as the
/// client not being available.
pub fn available(built: Result<Client, reqwest::Error>) -> (r: Result<Client, Failure>)
    ensures
        r == match built {
            Ok(c) => Ok::<Client, Failure>(c),
            Err(_) => Err::<Client, Failure>(Failure::ClientUnavailable),
        },
{
    match built {
        Ok(c) => Ok(c),
        Err(_) => Err(Failure::ClientUnavailable),
    }
}

} // verus!
