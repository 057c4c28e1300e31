//! The work item's records. The request context borrows its text from the
//! buffer the item was read from, so reading it copies nothing; the body is
//! owned, since unescaping it makes a new string.
use vstd::prelude::*;

verus! {

/// One work item: its request context and its body.
#[derive(Debug, PartialEq, Eq)]
pub struct LambdaEvent<'a> {
    /// Metadata of the request, borrowed from the source buffer.
    pub request_context: RequestContext<'a>,
    /// The payload, often JSON text of its own.
    pub body: String,
}

/// Metadata of a work item, borrowed from the source buffer.
#[derive(Debug, PartialEq, Eq)]
pub struct RequestContext<'a> {
    /// The identifier of the work item.
    pub request_id: &'a str,
    /// The account the item belongs to; empty when absent.
    pub account_id: &'a str,
    /// The deployment stage, such as `prod`; empty when absent.
    pub stage: &'a str,
}

} // verus!
