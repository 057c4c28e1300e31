//! The runtime façade: it holds the endpoint, builds the transport on first
//! use, names the protocol's paths and wraps transport failures.
use vstd::prelude::*;
use crate::http_client::{HttpClient, HttpError, describes};

verus! {

#[verifier::external_type_specification]
#[verifier::external_body]
#[verifier::reject_recursive_types(T)]
pub struct ExOnceCell<T>(once_cell::sync::OnceCell<T>);

pub assume_specification<T>[ once_cell::sync::OnceCell::<T>::new ]() -> once_cell::sync::OnceCell<
    T,
>;

/// Relies on `OnceCell::get_or_init`: the value of the runtime's cell, which
/// the first call makes with `HttpClient::new` from the runtime's endpoint and
/// every later call hands back unchanged. The cell is private to `Runtime`
/// and filled nowhere else, and the endpoint never changes, so the value is a
/// client for that endpoint.
#[verifier::external_body]
fn client_in(rt: &Runtime) -> (r: &HttpClient)
    ensures
        r.spec_endpoint() == rt.spec_endpoint(),
{
    rt.client.get_or_init(|| HttpClient::new(rt.api_endpoint.clone()))
}

/// A runtime failure; the text says what went wrong.
#[derive(Debug)]
pub enum Error {
    /// The runtime could not do what was asked.
    InitializationFailed(String),
}

impl Error {
    /// A readable description of the error.
    pub fn to_string(&self) -> (r: String)
        ensures
            match self {
                Error::InitializationFailed(m) => r@ == "Initialization failed: "@ + m@,
            },
    {
        match self {
            Error::InitializationFailed(m) => {
                let mut s = String::from_str("Initialization failed: ");
                s.append(m.as_str());
                s
            },
        }
    }
}

/// `r` is the runtime error that wraps `e` under the heading `head`.
pub open spec fn wraps(r: Error, head: Seq<char>, e: HttpError) -> bool {
    match r {
        Error::InitializationFailed(m) => exists|d: Seq<char>| describes(e, d) && m@ == head + d,
    }
}

/// The endpoint used when none is configured.
pub open spec fn default_endpoint() -> Seq<char> {
    "127.0.0.1:9001"@
}

/// The endpoint a runtime resolves from its configuration.
pub open spec fn resolve(config: Option<Seq<char>>) -> Seq<char> {
    match config {
        Some(e) => e,
        None => default_endpoint(),
    }
}

/// The path that asks for the next work item.
pub open spec fn next_path() -> Seq<char> {
    "/2018-06-01/runtime/invocation/next"@
}

/// The path that takes the result for the work item `id`.
pub open spec fn response_path_of(id: Seq<char>) -> Seq<char> {
    "/2018-06-01/runtime/invocation/"@ + id + "/response"@
}

/// The client side of the invocation protocol. Building it does no I/O;
/// its transport is made on first use, once, and shared by every clone.
#[derive(Clone, Debug)]
pub struct Runtime {
    api_endpoint: String,
    client: std::sync::Arc<once_cell::sync::OnceCell<HttpClient>>,
}

impl Runtime {
    /// The endpoint, `host:port`, of the control endpoint.
    pub closed spec fn spec_endpoint(&self) -> Seq<char> {
        self.api_endpoint@
    }

    /// A runtime for the endpoint `config` names, or `127.0.0.1:9001` when
    /// none is configured. It never fails and does no I/O.
    pub fn new(config: Option<String>) -> (r: Result<Runtime, Error>)
        ensures
            r matches Ok(rt) && rt.spec_endpoint() == resolve(
                match config {
                    Some(s) => Some(s@),
                    None => None,
                },
            ),
    {
        let api_endpoint = match config {
            Some(e) => e,
            None => String::from_str("127.0.0.1:9001"),
        };
        Ok(Runtime { api_endpoint, client: std::sync::Arc::new(once_cell::sync::OnceCell::new()) })
    }

    /// The endpoint, `host:port`, of the control endpoint.
    pub fn endpoint(&self) -> (r: &str)
        ensures
            r@ == self.spec_endpoint(),
    {
        self.api_endpoint.as_str()
    }

    /// The transport, made for this runtime's endpoint on the first call and
    /// the same one on every later call.
    pub fn get_client(&self) -> (r: &HttpClient)
        ensures
            r.spec_endpoint() == self.spec_endpoint(),
    {
        client_in(self)
    }

    /// The path that asks for the next work item.
    pub fn next_event_path() -> (r: String)
        ensures
            r@ == next_path(),
    {
        String::from_str("/2018-06-01/runtime/invocation/next")
    }

    /// The path that takes the result for the work item `request_id`.
    pub fn response_path(request_id: &str) -> (r: String)
        ensures
            r@ == response_path_of(request_id@),
    {
        let mut s = String::from_str("/2018-06-01/runtime/invocation/");
        s.append(request_id);
        s.append("/response");
        s
    }

    /// What `next_event` reports for the transport's outcome `got`: the
    /// `(identifier, body)` pair as it came, or the failure wrapped.
    pub fn event_outcome(got: Result<(String, String), HttpError>) -> (r: Result<
        (String, String),
        Error,
    >)
        ensures
            match got {
                Ok(p) => r matches Ok(q) && q == p,
                Err(e) => r matches Err(w) && wraps(w, "Failed to get next event: "@, e),
            },
    {
        match got {
            Ok(p) => Ok(p),
            Err(e) => Err(Self::wrap("Failed to get next event: ", &e)),
        }
    }

    /// What `post_response` reports for the transport's outcome `got`.
    pub fn response_outcome(got: Result<(), HttpError>) -> (r: Result<(), Error>)
        ensures
            match got {
                Ok(_) => r is Ok,
                Err(e) => r matches Err(w) && wraps(w, "Failed to post response: "@, e),
            },
    {
        match got {
            Ok(_) => Ok(()),
            Err(e) => Err(Self::wrap("Failed to post response: ", &e)),
        }
    }

    /// The runtime error that wraps `e` under the heading `head`.
    fn wrap(head: &str, e: &HttpError) -> (r: Error)
        ensures
            wraps(r, head@, *e),
    {
        let mut m = String::from_str(head);
        let d = e.to_string();
        m.append(d.as_str());
        assert(describes(*e, d@));
        Error::InitializationFailed(m)
    }
}

} // verus!
