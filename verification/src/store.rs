//! The store: its operations as a trait, and the store on a `sled`
//! database.

use vstd::prelude::*;
use sled::transaction::TransactionError;
use crate::batch::added;
use crate::batch::assigned;
use crate::batch::encoded;
use crate::batch::some_answered_none;
use crate::batch::some_lacks_id;
use crate::batch::first_rejected_with;
use crate::batch::stage_add_all;
use crate::batch::stage_remove_all;
use crate::batch::stage_update_all;
use crate::batch::updated;
use crate::document::answers;
use crate::document::lacks_id;
use crate::document::Document;
use crate::engine::aborted;
use crate::engine::committed;
use crate::engine::database_at;
use crate::engine::failed;
use crate::engine::lemma_aborted_run;
use crate::engine::lemma_committed_run;
use crate::engine::lookup_answer;
use crate::engine::no_database_at;
use crate::engine::not_opened;
use crate::engine::open_db;
use crate::engine::open_tree;
use crate::engine::opened;
use crate::engine::scanned;
use crate::engine::transact;
use crate::engine::Scanned;
use crate::error::StoreError;
use crate::id::Id;
use crate::read::all_found;
use crate::read::broke_off;
use crate::read::decoded_from;
use crate::read::lemma_found_values;
use crate::read::paged;
use crate::read::read_each;
use crate::read::read_page;
use crate::read::stopped_at;
use crate::read::stops;
use crate::serialize::encodes;
use crate::serialize::rejected_with;

verus! {

/// A store of documents in named collections. Each batch operation works on
/// the one collection of its document type, and takes effect as a whole or
/// not at all.
pub trait Store {
    /// The store could not open the collection of the name `collection`:
    /// its engine failed with `cause`.
    spec fn unopened(&self, collection: Seq<char>, cause: sled::Error) -> bool;

    /// The store, asked for the entry of the identifier `id` in the
    /// collection, gave `answer`: the bytes that the collection holds there,
    /// `None` where it holds none, or its engine's error.
    spec fn looked_up(
        &self,
        collection: Seq<char>,
        id: Seq<char>,
        answer: Result<Option<Seq<u8>>, sled::Error>,
    ) -> bool;

    /// The store, asked to walk the collection from its first entry in the
    /// order of the keys, gave the answers of `trace` in turn.
    spec fn walked(&self, collection: Seq<char>, trace: Seq<Scanned>) -> bool;

    /// The store has removed, as one, the entries of `ids` from the
    /// collection of the name `collection`: those of them that it held.
    spec fn removed(&self, collection: Seq<char>, ids: Seq<Id>) -> bool;

    /// The store was to remove the entries of `ids` from the collection,
    /// and its engine failed with `cause`.
    spec fn not_removed(&self, collection: Seq<char>, ids: Seq<Id>, cause: sled::Error) -> bool;

    /// Adds every item of `data` to the collection of `T` and returns their
    /// identifiers in the order of the items. An item keeps the identifier
    /// that it brings; one that brings none gets a new one. The error of an
    /// item that cannot be encoded is the codec's own.
    fn add_all<T: serde::Serialize + Document>(&self, data: &Vec<&T>) -> (r: Result<Vec<Id>, StoreError>)
        ensures
            r matches Ok(ids) ==> added(data@, ids@),
            r matches Err(e) ==> e is Sled || (e matches StoreError::Bincode(cause) && first_rejected_with(
                data@,
                cause,
            )),
    ;

    /// Writes every item of `data` under its own identifier into the
    /// collection of `T`, over the entry that is there or as a new one. An
    /// item without an identifier fails the batch. The error of an item that
    /// cannot be encoded is the codec's own.
    fn update_all<T: serde::Serialize + Document>(&self, data: &Vec<&T>) -> (r: Result<(), StoreError>)
        ensures
            r is Ok ==> updated(data@),
            r matches Err(e) ==> {
                ||| e is Sled
                ||| e matches StoreError::Bincode(cause) && first_rejected_with(data@, cause)
                ||| e is IdentifierRequired && some_answered_none(data@)
            },
            some_lacks_id(data@) ==> (r matches Err(e) && (e is IdentifierRequired || e is Sled)),
    ;

    /// Removes the entries of `data` from the collection of `T`. An
    /// identifier that the collection does not hold is no error; the only
    /// error is the engine's, carried as it is.
    fn remove_all<T: Document>(&self, data: &Vec<Id>) -> (r: Result<(), StoreError>)
        ensures
            r is Ok ==> self.removed(T::COLLECTION_NAME@, data@),
            r matches Err(e) ==> e matches StoreError::Sled(cause) && (self.unopened(T::COLLECTION_NAME@, cause)
                || self.not_removed(T::COLLECTION_NAME@, data@, cause)),
    ;

    /// The documents of the collection of `T` in the order of their keys,
    /// without the first `skip` and no more than `take` of them. One entry
    /// that the engine fails to read, passed over or within the page, fails
    /// the whole call with the engine's error; one entry within the page
    /// that cannot be decoded fails it with the codec's. The error is that
    /// of the first such entry in the order of the walk.
    fn get_all<T: Document + serde::de::DeserializeOwned>(&self, skip: usize, take: usize) -> (r: Result<
        Vec<T>,
        StoreError,
    >)
        ensures
            r matches Ok(items) ==> exists|trace: Seq<Scanned>|
                self.walked(T::COLLECTION_NAME@, trace) && paged(trace, skip as nat, take as nat, items@),
            r matches Err(e) ==> {
                ||| e matches StoreError::Sled(cause) && self.unopened(T::COLLECTION_NAME@, cause)
                ||| exists|trace: Seq<Scanned>|
                    self.walked(T::COLLECTION_NAME@, trace) && broke_off::<T>(
                        trace,
                        skip as nat,
                        take as nat,
                        e,
                    )
            },
    ;

    /// The documents of the collection of `T` under `ids`, in the order of
    /// `ids`. One identifier that the collection does not hold fails the
    /// whole call, and so does one whose entry cannot be read or decoded,
    /// with the engine's error or the codec's. The error is that of the
    /// first identifier, in the order asked, that stops the call.
    fn get<T: Document + serde::de::DeserializeOwned>(&self, ids: Vec<Id>) -> (r: Result<Vec<T>, StoreError>)
        ensures
            r matches Ok(items) ==> exists|values: Seq<Seq<u8>>|
                {
                    &&& values.len() == ids@.len()
                    &&& decoded_from(values, items@)
                    &&& forall|i: int|
                        0 <= i < ids@.len() ==> self.looked_up(
                            T::COLLECTION_NAME@,
                            ids@[i]@,
                            Ok(Some(#[trigger] values[i])),
                        )
                },
            r matches Err(e) ==> {
                ||| e matches StoreError::Sled(cause) && self.unopened(T::COLLECTION_NAME@, cause)
                ||| exists|i: int, answer: Result<Option<Seq<u8>>, sled::Error>, values: Seq<Seq<u8>>, items: Seq<T>|
                    #![trigger self.looked_up(T::COLLECTION_NAME@, ids@[i]@, answer), decoded_from(values, items)]
                    {
                        &&& 0 <= i < ids@.len()
                        &&& self.looked_up(T::COLLECTION_NAME@, ids@[i]@, answer)
                        &&& stops::<T>(answer, e)
                        &&& values.len() == i
                        &&& decoded_from(values, items)
                        &&& forall|j: int|
                            0 <= j < i ==> self.looked_up(
                                T::COLLECTION_NAME@,
                                ids@[j]@,
                                Ok(Some(#[trigger] values[j])),
                            )
                    }
            },
    ;

    /// Adds one item: `add_all` on the list that holds it alone.
    fn add<T: serde::Serialize + Document>(&self, data: &T) -> (r: Result<Vec<Id>, StoreError>)
        ensures
            r matches Ok(ids) ==> {
                &&& ids@.len() == 1
                &&& assigned(data, ids@[0])
                &&& exists|value: Seq<u8>| encodes(data, value)
            },
            r matches Err(e) ==> e is Sled || (e matches StoreError::Bincode(cause) && rejected_with(data, cause)),
    {
        let batch = vec![data];
        let r = self.add_all(&batch);
        proof {
            assert(batch@[0] == data);
            if r is Ok {
                let values = choose|values: Seq<Seq<u8>>| encoded(batch@, values);
                assert(encodes(batch@[0], values[0]));
            }
        }
        r
    }

    /// Updates one item: `update_all` on the list that holds it alone.
    fn update<T: serde::Serialize + Document>(&self, data: &T) -> (r: Result<(), StoreError>)
        ensures
            r is Ok ==> {
                &&& exists|id: Id| answers(data, Some(id))
                &&& exists|value: Seq<u8>| encodes(data, value)
            },
            r matches Err(e) ==> {
                ||| e is Sled
                ||| e matches StoreError::Bincode(cause) && rejected_with(data, cause)
                ||| e is IdentifierRequired && answers(data, None::<Id>)
            },
            lacks_id(data) ==> (r matches Err(e) && (e is IdentifierRequired || e is Sled)),
    {
        let batch = vec![data];
        let r = self.update_all(&batch);
        proof {
            assert(batch@[0] == data);
            if r is Ok {
                let ids = choose|ids: Seq<Id>|
                    ids.len() == batch@.len() && forall|i: int|
                        0 <= i < batch@.len() ==> answers(batch@[i], Some(#[trigger] ids[i]));
                assert(answers(batch@[0], Some(ids[0])));
                let values = choose|values: Seq<Seq<u8>>| encoded(batch@, values);
                assert(encodes(batch@[0], values[0]));
            }
        }
        r
    }

    /// Removes one entry: `remove_all` on the list that holds its identifier
    /// alone.
    fn remove<T: Document>(&self, id: Id) -> (r: Result<(), StoreError>)
        ensures
            r is Ok ==> self.removed(T::COLLECTION_NAME@, seq![id]),
            r matches Err(e) ==> e matches StoreError::Sled(cause) && (self.unopened(T::COLLECTION_NAME@, cause)
                || self.not_removed(T::COLLECTION_NAME@, seq![id], cause)),
    {
        let batch = vec![id];
        assert(batch@ =~= seq![id]);
        self.remove_all::<T>(&batch)
    }
}

/// The store on a `sled` database: one tree for each collection, under the
/// collection's name, with an entry for each document under the bytes of its
/// identifier.
#[derive(Debug, Clone)]
pub struct SledStore {
    sled: sled::Db,
}

impl SledStore {
    /// The database that the store works on.
    pub closed spec fn db(&self) -> sled::Db {
        self.sled
    }

    /// The store on a database that is already open.
    pub fn with(sled: sled::Db) -> (r: Self)
        ensures
            r.db() == sled,
    {
        Self { sled }
    }

    /// Opens the database at `path`, creating it where there is none, and
    /// gives the store on it.
    pub fn new(path: std::path::PathBuf) -> (r: Result<Self, StoreError>)
        ensures
            r matches Ok(store) ==> database_at(path, store.db()),
            r matches Err(e) ==> e matches StoreError::Sled(cause) && no_database_at(path, cause),
    {
        match open_db(path) {
            Ok(sled) => Ok(Self::with(sled)),
            Err(e) => Err(StoreError::Sled(e)),
        }
    }
}

/// The engine failed with `cause` at a batch on the collection of `T`: it
/// could not open the tree, or the transaction that ran `body` on `data`
/// failed, in a step of a run or in the commit.
pub open spec fn batch_failed<A, X, G: Fn(&mut sled::transaction::TransactionalTree, &X) -> Result<
    A,
    sled::transaction::ConflictableTransactionError<StoreError>,
>>(store: &SledStore, collection: Seq<char>, body: G, data: X, cause: sled::Error) -> bool {
    ||| not_opened(store.db(), collection, cause)
    ||| exists|tree: sled::Tree| opened(store.db(), collection, tree) && failed::<A, X, G>(tree, body, data, cause)
}

/// The engine ran `body` on `data` as a transaction on the tree of the
/// collection, and a run aborted it with `e`: nothing was committed.
pub open spec fn batch_aborted<A, X, G: Fn(&mut sled::transaction::TransactionalTree, &X) -> Result<
    A,
    sled::transaction::ConflictableTransactionError<StoreError>,
>>(store: &SledStore, collection: Seq<char>, body: G, data: X, e: StoreError) -> bool {
    exists|tree: sled::Tree| opened(store.db(), collection, tree) && aborted::<A, X, G>(tree, body, data, e)
}

impl Store for SledStore {
    /// The engine, asked for the tree of that name, failed with `cause`.
    open spec fn unopened(&self, collection: Seq<char>, cause: sled::Error) -> bool {
        not_opened(self.db(), collection, cause)
    }

    /// The engine opened the tree of that name and, asked for the entry of
    /// `id` in it, gave `answer`.
    open spec fn looked_up(
        &self,
        collection: Seq<char>,
        id: Seq<char>,
        answer: Result<Option<Seq<u8>>, sled::Error>,
    ) -> bool {
        exists|tree: sled::Tree| opened(self.db(), collection, tree) && lookup_answer(tree, id, answer)
    }

    /// The engine opened the tree of that name and, asked to walk it from
    /// its first entry, gave the answers of `trace`.
    open spec fn walked(&self, collection: Seq<char>, trace: Seq<Scanned>) -> bool {
        exists|tree: sled::Tree| opened(self.db(), collection, tree) && scanned(tree, trace)
    }

    /// The engine has committed, on the tree of the name `collection`, a
    /// transaction that ran `stage_remove_all` on `ids`.
    open spec fn removed(&self, collection: Seq<char>, ids: Seq<Id>) -> bool {
        exists|tree: sled::Tree, data: Vec<Id>|
            {
                &&& data@ == ids
                &&& opened(self.db(), collection, tree)
                &&& #[trigger] committed(tree, stage_remove_all, data, ())
            }
    }

    /// The transaction that ran `stage_remove_all` on `ids`, on the tree of
    /// the name `collection`, failed with `cause`, in a step of a run or in
    /// the commit.
    open spec fn not_removed(&self, collection: Seq<char>, ids: Seq<Id>, cause: sled::Error) -> bool {
        exists|tree: sled::Tree, data: Vec<Id>|
            {
                &&& data@ == ids
                &&& opened(self.db(), collection, tree)
                &&& #[trigger] failed::<(), Vec<Id>, _>(tree, stage_remove_all, data, cause)
            }
    }

    /// Runs `stage_add_all` as one transaction on the tree of `T`.
    fn add_all<T: serde::Serialize + Document>(&self, data: &Vec<&T>) -> (r: Result<Vec<Id>, StoreError>)
        ensures
            r matches Ok(ids) ==> exists|tree: sled::Tree|
                opened(self.db(), T::COLLECTION_NAME@, tree) && committed(tree, stage_add_all::<T>, *data, ids),
            r matches Err(e) ==> match e {
                StoreError::Sled(cause) => batch_failed::<Vec<Id>, _, _>(
                    self,
                    T::COLLECTION_NAME@,
                    stage_add_all::<T>,
                    *data,
                    cause,
                ),
                _ => batch_aborted::<Vec<Id>, _, _>(self, T::COLLECTION_NAME@, stage_add_all::<T>, *data, e),
            },
    {
        let tree = match open_tree(&self.sled, T::COLLECTION_NAME) {
            Ok(tree) => tree,
            Err(e) => {
                return Err(StoreError::Sled(e));
            },
        };
        match transact(&tree, stage_add_all::<T>, data) {
            Ok(ids) => {
                proof {
                    lemma_committed_run(tree, stage_add_all::<T>, *data, ids);
                }
                Ok(ids)
            },
            Err(e) => {
                let ghost failure = e;
                proof {
                    if let TransactionError::Abort(cause) = failure {
                        lemma_aborted_run::<Vec<Id>, _, _>(tree, stage_add_all::<T>, *data, cause);
                    }
                }
                Err(StoreError::of_transaction(e))
            },
        }
    }

    /// Adds one item: `add_all` on the list that holds it alone. The outcome
    /// is that of the transaction on that list.
    fn add<T: serde::Serialize + Document>(&self, data: &T) -> (r: Result<Vec<Id>, StoreError>)
        ensures
            r matches Ok(ids) ==> exists|tree: sled::Tree, batch: Vec<&T>|
                batch@ == seq![data] && opened(self.db(), T::COLLECTION_NAME@, tree) && #[trigger] committed(
                    tree,
                    stage_add_all::<T>,
                    batch,
                    ids,
                ),
            r matches Err(StoreError::Sled(cause)) ==> exists|batch: Vec<&T>|
                batch@ == seq![data] && #[trigger] batch_failed::<Vec<Id>, Vec<&T>, _>(
                    self,
                    T::COLLECTION_NAME@,
                    stage_add_all::<T>,
                    batch,
                    cause,
                ),
            r matches Err(e) ==> e is Sled || exists|batch: Vec<&T>|
                batch@ == seq![data] && #[trigger] batch_aborted::<Vec<Id>, Vec<&T>, _>(
                    self,
                    T::COLLECTION_NAME@,
                    stage_add_all::<T>,
                    batch,
                    e,
                ),
    {
        let batch = vec![data];
        let r = self.add_all(&batch);
        proof {
            assert(batch@ =~= seq![data]);
            assert(batch@[0] == data);
            if r is Ok {
                let values = choose|values: Seq<Seq<u8>>| encoded(batch@, values);
                assert(encodes(batch@[0], values[0]));
            }
        }
        r
    }

    /// Updates one item: `update_all` on the list that holds it alone. The
    /// outcome is that of the transaction on that list.
    fn update<T: serde::Serialize + Document>(&self, data: &T) -> (r: Result<(), StoreError>)
        ensures
            r is Ok ==> exists|tree: sled::Tree, batch: Vec<&T>|
                batch@ == seq![data] && opened(self.db(), T::COLLECTION_NAME@, tree) && #[trigger] committed(
                    tree,
                    stage_update_all::<T>,
                    batch,
                    (),
                ),
            r matches Err(StoreError::Sled(cause)) ==> exists|batch: Vec<&T>|
                batch@ == seq![data] && #[trigger] batch_failed::<(), Vec<&T>, _>(
                    self,
                    T::COLLECTION_NAME@,
                    stage_update_all::<T>,
                    batch,
                    cause,
                ),
            r matches Err(e) ==> e is Sled || exists|batch: Vec<&T>|
                batch@ == seq![data] && #[trigger] batch_aborted::<(), Vec<&T>, _>(
                    self,
                    T::COLLECTION_NAME@,
                    stage_update_all::<T>,
                    batch,
                    e,
                ),
    {
        let batch = vec![data];
        let r = self.update_all(&batch);
        proof {
            assert(batch@ =~= seq![data]);
            assert(batch@[0] == data);
            if r is Ok {
                let ids = choose|ids: Seq<Id>|
                    ids.len() == batch@.len() && forall|i: int|
                        0 <= i < batch@.len() ==> answers(batch@[i], Some(#[trigger] ids[i]));
                assert(answers(batch@[0], Some(ids[0])));
                let values = choose|values: Seq<Seq<u8>>| encoded(batch@, values);
                assert(encodes(batch@[0], values[0]));
            }
        }
        r
    }

    /// Runs `stage_update_all` as one transaction on the tree of `T`.
    fn update_all<T: serde::Serialize + Document>(&self, data: &Vec<&T>) -> (r: Result<(), StoreError>)
        ensures
            r is Ok ==> exists|tree: sled::Tree|
                opened(self.db(), T::COLLECTION_NAME@, tree) && committed(tree, stage_update_all::<T>, *data, ()),
            r matches Err(e) ==> match e {
                StoreError::Sled(cause) => batch_failed::<(), _, _>(
                    self,
                    T::COLLECTION_NAME@,
                    stage_update_all::<T>,
                    *data,
                    cause,
                ),
                _ => batch_aborted::<(), _, _>(self, T::COLLECTION_NAME@, stage_update_all::<T>, *data, e),
            },
    {
        let tree = match open_tree(&self.sled, T::COLLECTION_NAME) {
            Ok(tree) => tree,
            Err(e) => {
                return Err(StoreError::Sled(e));
            },
        };
        match transact(&tree, stage_update_all::<T>, data) {
            Ok(()) => {
                proof {
                    lemma_committed_run(tree, stage_update_all::<T>, *data, ());
                }
                Ok(())
            },
            Err(e) => {
                let ghost failure = e;
                proof {
                    if let TransactionError::Abort(cause) = failure {
                        lemma_aborted_run::<(), _, _>(tree, stage_update_all::<T>, *data, cause);
                    }
                }
                Err(StoreError::of_transaction(e))
            },
        }
    }

    /// Runs `stage_remove_all` as one transaction on the tree of `T`.
    fn remove_all<T: Document>(&self, data: &Vec<Id>) -> (r: Result<(), StoreError>) {
        let tree = match open_tree(&self.sled, T::COLLECTION_NAME) {
            Ok(tree) => tree,
            Err(e) => {
                return Err(StoreError::Sled(e));
            },
        };
        match transact(&tree, stage_remove_all, data) {
            Ok(()) => Ok(()),
            Err(e) => {
                let ghost failure = e;
                proof {
                    if let TransactionError::Abort(cause) = failure {
                        lemma_aborted_run::<(), _, _>(tree, stage_remove_all, *data, cause);
                    }
                }
                Err(StoreError::of_transaction(e))
            },
        }
    }

    /// Runs `read_page` on the tree of `T`.
    fn get_all<T: Document + serde::de::DeserializeOwned>(&self, skip: usize, take: usize) -> (r: Result<
        Vec<T>,
        StoreError,
    >) {
        let tree = match open_tree(&self.sled, T::COLLECTION_NAME) {
            Ok(tree) => tree,
            Err(e) => {
                return Err(StoreError::Sled(e));
            },
        };
        let r = read_page::<T>(&tree, skip, take);
        let ghost outcome = r;
        proof {
            match outcome {
                Ok(items) => {
                    let trace = choose|trace: Seq<Scanned>|
                        scanned(tree, trace) && paged(trace, skip as nat, take as nat, items@);
                    assert(self.walked(T::COLLECTION_NAME@, trace));
                },
                Err(e) => {
                    let trace = choose|trace: Seq<Scanned>|
                        scanned(tree, trace) && broke_off::<T>(trace, skip as nat, take as nat, e);
                    assert(self.walked(T::COLLECTION_NAME@, trace));
                },
            }
        }
        r
    }

    /// Runs `read_each` on the tree of `T`.
    fn get<T: Document + serde::de::DeserializeOwned>(&self, ids: Vec<Id>) -> (r: Result<Vec<T>, StoreError>) {
        let tree = match open_tree(&self.sled, T::COLLECTION_NAME) {
            Ok(tree) => tree,
            Err(e) => {
                return Err(StoreError::Sled(e));
            },
        };
        let r = read_each::<T>(&tree, &ids);
        let ghost outcome = r;
        proof {
            let name = T::COLLECTION_NAME@;
            match outcome {
                Ok(items) => {
                    let values = lemma_found_values(tree, ids@, items@);
                    assert forall|i: int| 0 <= i < ids@.len() implies self.looked_up(
                        name,
                        ids@[i]@,
                        Ok(Some(#[trigger] values[i])),
                    ) by {
                        assert(lookup_answer(tree, ids@[i]@, Ok(Some(values[i]))));
                    }
                },
                Err(e) => {
                    let (i, items) = choose|i: int, items: Seq<T>|
                        0 <= i < ids@.len() && stopped_at::<T>(tree, ids@[i], e) && #[trigger] all_found(
                            tree,
                            ids@.take(i),
                            items,
                        );
                    let answer = choose|answer: Result<Option<Seq<u8>>, sled::Error>|
                        lookup_answer(tree, ids@[i]@, answer) && stops::<T>(answer, e);
                    let values = lemma_found_values(tree, ids@.take(i), items);
                    assert forall|j: int| 0 <= j < i implies self.looked_up(
                        name,
                        ids@[j]@,
                        Ok(Some(#[trigger] values[j])),
                    ) by {
                        assert(ids@.take(i)[j] == ids@[j]);
                        assert(lookup_answer(tree, ids@[j]@, Ok(Some(values[j]))));
                    }
                    assert(self.looked_up(name, ids@[i]@, answer) && decoded_from(values, items));
                },
            }
        }
        r
    }
}

} // verus!
