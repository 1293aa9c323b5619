//! Error kinds for argument validation and filter compilation.

use vstd::prelude::*;

verus! {

/// A configuration failure: each of these invalidates the whole run and
/// is raised before any network traffic.
#[derive(Clone, Copy, Debug, PartialEq, Eq, Structural)]
pub enum AppError {
    /// Argument parsing failed: a bad integer, a bad program address,
    /// or both of a mutually exclusive pair supplied.
    InvalidArguments,
    /// A filter was not of the form `offset:value`.
    BadFilterSyntax,
    /// A `0x` filter value was not non-empty even-length hex.
    BadHex,
    /// A filter value was not a base58 address.
    BadAddress,
    /// A decoder name other than the ones registered.
    UnknownDecoder,
}

} // verus!
