//! Why an operation was refused.

use vstd::prelude::*;

verus! {

/// The registry's own reasons to refuse an operation.
#[derive(Clone, Copy, Debug, PartialEq, Eq, Structural)]
pub enum Error {
    /// The account already controls a document.
    DidDocumentAlreadyExists,
    /// The account controls no document.
    DidDocumentNotFound,
    /// The caller is not the controller of the document.
    NotController,
    /// The document already links as many chains as it may.
    TooManyLinkedChains,
    /// The document already holds as many public keys as it may.
    TooManyPublicKeys,
    /// The document already holds as many services as it may.
    TooManyServices,
    /// The chain to unlink is not linked.
    ChainNotLinked,
    /// The chain to link is already linked; unlink it first.
    ChainAlreadyLinked,
    /// The public key to remove is not in the document.
    PublicKeyNotFound,
    /// The service to remove is not in the document.
    ServiceNotFound,
}

/// What a request entry point fails with: either the caller was not
/// authenticated at all, or the registry refused the operation.
#[derive(Clone, Copy, Debug, PartialEq, Eq, Structural)]
pub enum DispatchError {
    /// The request did not come from an authenticated account.
    BadOrigin,
    /// The registry refused the operation.
    Module(Error),
}

} // verus!
