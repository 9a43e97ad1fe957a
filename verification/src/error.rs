//! The errors of the store.

use vstd::prelude::*;
use vstd::std_specs::convert::FromSpecImpl;
use sled::transaction::TransactionError;

verus! {

/// `sled::Error`: a failure of the engine.
#[verifier::external_type_specification]
#[verifier::external_body]
pub struct ExSledError(sled::Error);

/// `bincode::ErrorKind`: a failure of the bincode codec; `bincode::Error` is
/// a box of it.
#[verifier::external_type_specification]
#[verifier::external_body]
pub struct ExErrorKind(bincode::ErrorKind);

/// `serde_cbor::Error`: a failure of the CBOR codec.
#[verifier::external_type_specification]
#[verifier::external_body]
pub struct ExCborError(serde_cbor::Error);

/// `sled::transaction::TransactionError`: how a transaction ended that did
/// not commit; its variants are read as they are.
#[verifier::external_type_specification]
#[verifier::reject_recursive_types(T)]
pub struct ExTransactionError<T>(TransactionError<T>);

/// Why an operation of the store failed.
#[derive(Debug)]
pub enum StoreError {
    /// The engine could not open a tree, read or write an entry, or commit a
    /// transaction.
    Sled(sled::Error),
    /// A value could not be encoded in CBOR, or bytes could not be decoded
    /// from it.
    CBOR(serde_cbor::Error),
    /// A document could not be encoded, or stored bytes could not be decoded.
    Bincode(bincode::Error),
    /// A requested identifier is not in the collection.
    NoneError,
    /// A failure of the database that has no more specific kind.
    DatabaseError,
    /// A document handed to an update carries no identifier.
    IdentifierRequired,
}

impl From<sled::Error> for StoreError {
    fn from(e: sled::Error) -> (r: Self) {
        StoreError::Sled(e)
    }
}

impl FromSpecImpl<sled::Error> for StoreError {
    open spec fn obeys_from_spec() -> bool {
        true
    }

    open spec fn from_spec(e: sled::Error) -> Self {
        StoreError::Sled(e)
    }
}

impl From<serde_cbor::Error> for StoreError {
    fn from(e: serde_cbor::Error) -> (r: Self) {
        StoreError::CBOR(e)
    }
}

impl FromSpecImpl<serde_cbor::Error> for StoreError {
    open spec fn obeys_from_spec() -> bool {
        true
    }

    open spec fn from_spec(e: serde_cbor::Error) -> Self {
        StoreError::CBOR(e)
    }
}

impl From<bincode::Error> for StoreError {
    fn from(e: bincode::Error) -> (r: Self) {
        StoreError::Bincode(e)
    }
}

impl FromSpecImpl<bincode::Error> for StoreError {
    open spec fn obeys_from_spec() -> bool {
        true
    }

    open spec fn from_spec(e: bincode::Error) -> Self {
        StoreError::Bincode(e)
    }
}

impl StoreError {
    /// The error of a transaction that did not commit, as the caller of the
    /// store sees it: the error with which the transaction was aborted, or
    /// the engine's storage error.
    pub fn of_transaction(t: TransactionError<StoreError>) -> (r: Self)
        ensures
            r == match t {
                TransactionError::Abort(cause) => cause,
                TransactionError::Storage(cause) => StoreError::Sled(cause),
            },
    {
        match t {
            TransactionError::Abort(cause) => cause,
            TransactionError::Storage(cause) => StoreError::Sled(cause),
        }
    }
}

impl From<TransactionError<StoreError>> for StoreError {
    fn from(t: TransactionError<StoreError>) -> (r: Self) {
        StoreError::of_transaction(t)
    }
}

impl FromSpecImpl<TransactionError<StoreError>> for StoreError {
    open spec fn obeys_from_spec() -> bool {
        true
    }

    open spec fn from_spec(t: TransactionError<StoreError>) -> Self {
        match t {
            TransactionError::Abort(cause) => cause,
            TransactionError::Storage(cause) => StoreError::Sled(cause),
        }
    }
}

} // verus!
