//! A store of typed documents over the `sled` database: each document type
//! names a collection, each collection is a tree of the database, and each
//! document is an entry of its tree, under the bytes of its identifier.
//!
//! The database and the codec are not verified. What is proved of every
//! operation is stated over what they answered when they were asked: which
//! identifiers were assigned, which writes the committed transaction had
//! staged, from which entries the documents that come back were read.

pub mod batch;
pub mod cbor;
pub mod document;
pub mod engine;
pub mod error;
pub mod id;
pub mod read;
pub mod serialize;
pub mod store;
pub mod writes;

pub use document::Document;
pub use document::ItemOrList;
pub use error::StoreError;
pub use id::Id;
pub use store::SledStore;
pub use store::Store;
