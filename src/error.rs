//! The kinds of failure that the library reports.

use vstd::prelude::*;

verus! {

/// What went wrong; each failing operation reports exactly one kind.
#[derive(Clone, Copy, Debug, PartialEq, Eq, Structural)]
pub enum ErrorKind {
    /// A name or path breaks the naming rules.
    InvalidPath,
    /// The working directory is taken or is the directory being shared.
    PathConflict,
    /// An export target already exists.
    ExportConflict,
    /// A ticket string does not decode, including one that names an unknown format.
    TicketParse,
    /// A collection blob does not decode.
    DecodeProtocol,
    /// A secret key is not 32 bytes of lowercase hex.
    InvalidSecret,
    /// A hash format name is neither `hex` nor `cid`.
    InvalidFormat,
}

} // verus!
