use vstd::prelude::*;

verus! {

/// Why building a message failed: a required part was never given.
#[derive(Debug, Clone, Copy, PartialEq, Eq, Structural)]
pub enum BuildError {
    MissingSrc,
    MissingDst,
    MissingPayload,
}

/// The errors that the runtime, the RPC table and the workloads report.
#[derive(Debug, Clone, PartialEq, Eq, Structural)]
pub enum Error {
    /// An event that should have been a reply carries no `in_reply_to`.
    NotReply,
    /// An event of a kind that the receiver does not take.
    WrongEvent,
    /// The cluster's membership lists a node twice.
    DuplicateNode,
    /// No registered handler accepts the event.
    NoHandler,
    /// A reply that no pending RPC waits for.
    NoCallback { in_reply_to: Option<usize> },
    /// Text that is not valid URL-safe base64.
    Base64,
    /// Bytes that are not a valid state vector or update.
    Decode,
    /// The replicated document refused an update.
    Update,
    /// The replicated document holds a value of an unexpected shape.
    Malformed,
    /// A count left the range of its integer type.
    Overflow,
}

} // verus!
