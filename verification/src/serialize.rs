//! The codec of the store: documents are written to their collection, and
//! read back from it, in bincode.

use vstd::prelude::*;
use crate::error::StoreError;

verus! {

/// `bincode::serialize`: the bytes of `value` in bincode's default
/// configuration, or bincode's error. Nothing is claimed of either.
#[verifier::external_body]
fn bincode_serialize<T: ?Sized + serde::Serialize>(value: &T) -> (r: Result<Vec<u8>, bincode::Error>) {
    bincode::serialize(value)
}

/// `bincode::deserialize`: the value that bincode reads from `bytes` in its
/// default configuration, or bincode's error. Nothing is claimed of either.
#[verifier::external_body]
fn bincode_deserialize<'a, T: serde::de::Deserialize<'a>>(bytes: &'a [u8]) -> (r: Result<T, bincode::Error>) {
    bincode::deserialize(bytes)
}

/// `bytes` is an encoding that the codec gave for `value`.
pub closed spec fn encodes<T: ?Sized + serde::Serialize>(value: &T, bytes: Seq<u8>) -> bool {
    exists|v: Vec<u8>| v@ == bytes && call_ensures(bincode_serialize::<T>, (value,), Ok::<Vec<u8>, bincode::Error>(v))
}

/// The codec refused to encode `value`, with the error `cause`.
pub closed spec fn rejected_with<T: ?Sized + serde::Serialize>(value: &T, cause: bincode::Error) -> bool {
    call_ensures(bincode_serialize::<T>, (value,), Err::<Vec<u8>, bincode::Error>(cause))
}

/// `value` is what the codec read from `bytes`.
pub closed spec fn decodes<'a, T: serde::de::Deserialize<'a>>(bytes: Seq<u8>, value: T) -> bool {
    exists|b: &'a [u8]| b@ == bytes && call_ensures(bincode_deserialize::<T>, (b,), Ok::<T, bincode::Error>(value))
}

/// The codec could not read a value of `T` from `bytes`, and failed with
/// the error `cause`.
pub closed spec fn misread_with<'a, T: serde::de::Deserialize<'a>>(bytes: Seq<u8>, cause: bincode::Error) -> bool {
    exists|b: &'a [u8]| b@ == bytes && call_ensures(bincode_deserialize::<T>, (b,), Err::<T, bincode::Error>(cause))
}

/// Encodes `value` in bincode.
pub fn serialize<T: ?Sized + serde::Serialize>(value: &T) -> (r: Result<Vec<u8>, StoreError>)
    ensures
        r matches Ok(bytes) ==> encodes(value, bytes@),
        r matches Err(e) ==> e matches StoreError::Bincode(cause) && rejected_with(value, cause),
{
    match bincode_serialize(value) {
        Ok(bytes) => Ok(bytes),
        Err(e) => Err(StoreError::Bincode(e)),
    }
}

/// Decodes a value from `bytes` as bincode.
pub fn deserialize<'a, T: serde::de::Deserialize<'a>>(bytes: &'a [u8]) -> (r: Result<T, StoreError>)
    ensures
        r matches Ok(value) ==> decodes(bytes@, value),
        r matches Err(e) ==> e matches StoreError::Bincode(cause) && misread_with::<T>(bytes@, cause),
{
    match bincode_deserialize(bytes) {
        Ok(value) => Ok(value),
        Err(e) => Err(StoreError::Bincode(e)),
    }
}

} // verus!
