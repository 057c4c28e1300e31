//! A minimal client for a polling invocation protocol: a blocking HTTP/1.1
//! transport restricted to the two requests the protocol needs, a runtime
//! façade with a lazily built transport, borrowed work-item records, and a
//! structured JSON logger.
use vstd::prelude::*;

pub mod event;
pub mod http_client;
pub mod logger;
pub mod runtime;
pub mod text;

pub use event::{LambdaEvent, RequestContext};
pub use http_client::{HttpClient, HttpError};
pub use logger::{LogLevel, Logger};
pub use runtime::{Error, Runtime};

verus! {

} // verus!
