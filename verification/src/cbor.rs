//! The same pair of functions as the store's codec, for CBOR. The store
//! itself writes bincode; these serve callers that keep bytes in CBOR.

use vstd::prelude::*;
use crate::error::StoreError;

verus! {

/// `serde_cbor::to_vec`: the bytes of `value` in CBOR, or the codec's error.
/// Nothing is claimed of either.
#[verifier::external_body]
fn cbor_to_vec<T: serde::Serialize>(value: &T) -> (r: Result<Vec<u8>, serde_cbor::Error>) {
    serde_cbor::to_vec(value)
}

/// `serde_cbor::from_slice`: the value that the codec reads from the whole of
/// `bytes` as CBOR, or the codec's error. Nothing is claimed of either.
#[verifier::external_body]
fn cbor_from_slice<'a, T: serde::Deserialize<'a>>(bytes: &'a [u8]) -> (r: Result<T, serde_cbor::Error>) {
    serde_cbor::from_slice(bytes)
}

/// `bytes` is an encoding in CBOR that the codec gave for `value`.
pub closed spec fn encodes<T: serde::Serialize>(value: &T, bytes: Seq<u8>) -> bool {
    exists|v: Vec<u8>|
        v@ == bytes && call_ensures(cbor_to_vec::<T>, (value,), Ok::<Vec<u8>, serde_cbor::Error>(v))
}

/// The codec refused to encode `value`, with the error `cause`.
pub closed spec fn rejected_with<T: serde::Serialize>(value: &T, cause: serde_cbor::Error) -> bool {
    call_ensures(cbor_to_vec::<T>, (value,), Err::<Vec<u8>, serde_cbor::Error>(cause))
}

/// `value` is what the codec read from `bytes` as CBOR.
pub closed spec fn decodes<'a, T: serde::Deserialize<'a>>(bytes: Seq<u8>, value: T) -> bool {
    exists|b: &'a [u8]|
        b@ == bytes && call_ensures(cbor_from_slice::<T>, (b,), Ok::<T, serde_cbor::Error>(value))
}

/// The codec could not read a value of `T` from `bytes`, and failed with
/// the error `cause`.
pub closed spec fn misread_with<'a, T: serde::Deserialize<'a>>(bytes: Seq<u8>, cause: serde_cbor::Error) -> bool {
    exists|b: &'a [u8]| b@ == bytes && call_ensures(cbor_from_slice::<T>, (b,), Err::<T, serde_cbor::Error>(cause))
}

/// Encodes `value` in CBOR.
pub fn serialize<T: Sized + serde::Serialize>(value: &T) -> (r: Result<Vec<u8>, StoreError>)
    ensures
        r matches Ok(bytes) ==> encodes(value, bytes@),
        r matches Err(e) ==> e matches StoreError::CBOR(cause) && rejected_with(value, cause),
{
    match cbor_to_vec(value) {
        Ok(bytes) => Ok(bytes),
        Err(e) => Err(StoreError::CBOR(e)),
    }
}

/// Decodes a value from the whole of `bytes` as CBOR.
pub fn deserialize<'a, T: serde::Deserialize<'a>>(bytes: &'a [u8]) -> (r: Result<T, StoreError>)
    ensures
        r matches Ok(value) ==> decodes(bytes@, value),
        r matches Err(e) ==> e matches StoreError::CBOR(cause) && misread_with::<T>(bytes@, cause),
{
    match cbor_from_slice(bytes) {
        Ok(value) => Ok(value),
        Err(e) => Err(StoreError::CBOR(e)),
    }
}

} // verus!
