//! What can go wrong while a line is on its way out.

use vstd::prelude::*;

verus! {

/// `std::io::Error`, carried through as an opaque value: nothing is claimed
/// about what is inside it.
#[verifier::external_type_specification]
#[verifier::external_body]
pub struct ExIoError(std::io::Error);

/// The ways in which using a connection can fail.
#[derive(Debug)]
pub enum ConnError {
    /// The message has no argument, so there is no trailing parameter to send.
    NoArguments,
    /// The half of the connection that was asked for is already handed out.
    Busy,
    /// The transport reported a failure; the error is the transport's own.
    Io(std::io::Error),
}

} // verus!
