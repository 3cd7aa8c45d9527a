//! Error taxonomy: input-format failures, transport failures and decode
//! failures are kept apart so that callers can choose the right policy for
//! each (abort the whole operation, or skip one item and continue).

use vstd::prelude::*;

verus! {

/// A failure reported by the HTTP transport while talking to the forge.
#[derive(Clone, Copy, Debug, PartialEq, Eq, Structural)]
pub enum TransportError {
    /// The connection failed before any response arrived.
    Connection,
    /// The remote answered with an HTTP status that the protocol does not
    /// expect at that point.
    Status(u16),
}

/// A failure that ends a record stream early.
#[derive(Clone, Copy, Debug, PartialEq, Eq, Structural)]
pub enum StreamError {
    /// A page request failed at the transport.
    Transport(TransportError),
    /// A raw record in a page could not be decoded into its typed form.
    Decode,
}

/// A failure in caller-supplied input, detected before any remote call.
#[derive(Clone, Copy, Debug, PartialEq, Eq, Structural)]
pub enum InputError {
    /// A repository path that does not have the shape `owner/name`.
    BadRepoPath,
    /// Batch input that the tabular-text reader could not parse.
    MalformedBatchInput,
}

} // verus!
