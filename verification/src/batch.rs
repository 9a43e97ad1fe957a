//! The bodies of the transactions that change a collection, with what each
//! of them stages.

use vstd::prelude::*;
use sled::transaction::ConflictableTransactionError;
use sled::transaction::TransactionalTree;
use sled::transaction::UnabortableTransactionError;
use crate::document::answers;
use crate::document::lacks_id;
use crate::document::Document;
use crate::engine::committed;
use crate::engine::counted;
use crate::engine::fresh;
use crate::engine::generate_id;
use crate::engine::not_counted;
use crate::engine::put_refused;
use crate::engine::removal_refused;
use crate::engine::lemma_committed_run;
use crate::engine::stage_insert;
use crate::engine::stage_remove;
use crate::engine::staged;
use crate::error::StoreError;
use crate::id::decimal;
use crate::id::Id;
use crate::serialize::encodes;
use crate::serialize::rejected_with;
use crate::serialize::serialize;
use crate::writes::put_all;
use crate::writes::remove_each;

verus! {

/// The texts of a list of identifiers.
pub open spec fn texts(ids: Seq<Id>) -> Seq<Seq<char>> {
    ids.map_values(|id: Id| id@)
}

/// `text` is the rendering of a number that the engine's counter gave.
pub open spec fn generated(text: Seq<char>) -> bool {
    exists|number: u64| counted(number) && text == decimal(number as nat)
}

/// `id` is the identifier under which `item` is added: its own where it
/// brings one, else one made of a number of the engine's counter.
pub open spec fn assigned<T: Document>(item: &T, id: Id) -> bool {
    answers(item, Some(id)) || (answers(item, None::<Id>) && generated(id@))
}

/// `values` holds, position by position, an encoding of each item.
pub open spec fn encoded<T: serde::Serialize>(data: Seq<&T>, values: Seq<Seq<u8>>) -> bool {
    &&& values.len() == data.len()
    &&& forall|i: int| 0 <= i < data.len() ==> encodes(data[i], #[trigger] values[i])
}

/// What a successful add of `data` gives: an identifier for each item, in the
/// order of the items, each item's own where it brings one; and every item
/// was encoded.
pub open spec fn added<T: serde::Serialize + Document>(data: Seq<&T>, ids: Seq<Id>) -> bool {
    &&& ids.len() == data.len()
    &&& forall|i: int| 0 <= i < data.len() ==> assigned(data[i], #[trigger] ids[i])
    &&& exists|values: Seq<Seq<u8>>| encoded(data, values)
}

/// What a successful update with `data` took: every item gave an identifier,
/// and every item was encoded.
pub open spec fn updated<T: serde::Serialize + Document>(data: Seq<&T>) -> bool {
    &&& exists|ids: Seq<Id>|
        ids.len() == data.len() && forall|i: int|
            0 <= i < data.len() ==> answers(data[i], Some(#[trigger] ids[i]))
    &&& exists|values: Seq<Seq<u8>>| encoded(data, values)
}

/// One of the items brings no identifier.
pub open spec fn some_lacks_id<T: Document>(data: Seq<&T>) -> bool {
    exists|i: int| 0 <= i < data.len() && lacks_id(#[trigger] data[i])
}

/// One of the items answered that it has no identifier.
pub open spec fn some_answered_none<T: Document>(data: Seq<&T>) -> bool {
    exists|i: int| 0 <= i < data.len() && answers(#[trigger] data[i], None::<Id>)
}

/// The codec refused an item with the error `cause`, and that item is the
/// first, in the order of the list, that could not be encoded: every item
/// before it was encoded.
pub open spec fn first_rejected_with<T: serde::Serialize>(data: Seq<&T>, cause: bincode::Error) -> bool {
    exists|i: int, values: Seq<Seq<u8>>|
        0 <= i < data.len() && rejected_with(data[i], cause) && #[trigger] encoded(data.take(i), values)
}

/// The engine failed with `cause` in the step of an add for `item`: when it
/// was asked for a number, `item` bringing no identifier, or when it was
/// asked to stage the item under its identifier.
pub open spec fn add_step_failed<T: Document>(item: &T, cause: sled::Error) -> bool {
    ||| answers(item, None::<Id>) && not_counted(cause)
    ||| exists|id: Id| assigned(item, id) && put_refused(id@, cause)
}

/// The engine failed with `cause` in the step of an add for one of the
/// items.
pub open spec fn some_add_step_failed<T: Document>(data: Seq<&T>, cause: sled::Error) -> bool {
    exists|i: int| 0 <= i < data.len() && add_step_failed(#[trigger] data[i], cause)
}

/// The engine failed with `cause` when it was asked to stage `item` under
/// the item's own identifier.
pub open spec fn update_step_failed<T: Document>(item: &T, cause: sled::Error) -> bool {
    exists|id: Id| answers(item, Some(id)) && put_refused(id@, cause)
}

/// The engine failed with `cause` in the step of an update for one of the
/// items.
pub open spec fn some_update_step_failed<T: Document>(data: Seq<&T>, cause: sled::Error) -> bool {
    exists|i: int| 0 <= i < data.len() && update_step_failed(#[trigger] data[i], cause)
}

/// The engine failed with `cause` when it was asked to stage the removal of
/// one of the identifiers.
pub open spec fn some_removal_refused(ids: Seq<Id>, cause: sled::Error) -> bool {
    exists|i: int| 0 <= i < ids.len() && removal_refused((#[trigger] ids[i])@, cause)
}

/// The error with which a transaction goes on after the engine refused one
/// of its steps: a conflict stays a conflict, a storage error a storage
/// error.
pub fn refused(e: UnabortableTransactionError) -> (r: ConflictableTransactionError<StoreError>)
    ensures
        r == match e {
            UnabortableTransactionError::Conflict => ConflictableTransactionError::<StoreError>::Conflict,
            UnabortableTransactionError::Storage(cause) => ConflictableTransactionError::Storage(cause),
        },
{
    match e {
        UnabortableTransactionError::Conflict => ConflictableTransactionError::Conflict,
        UnabortableTransactionError::Storage(cause) => ConflictableTransactionError::Storage(cause),
    }
}

/// The body of the transaction that adds `data` to a collection: for each
/// item in order it takes the item's own identifier or, where it has none,
/// makes one of the next number of the engine's counter; encodes the item; and
/// stages the bytes under the identifier's key. It returns the identifiers in
/// the order of the items. An item that cannot be encoded aborts the
/// transaction with the codec's error; a step that the engine refuses ends
/// the run with the engine's error. The body returns no conflict of its own,
/// and on no items it stages nothing and succeeds.
pub fn stage_add_all<T: serde::Serialize + Document>(view: &mut TransactionalTree, data: &Vec<&T>) -> (r: Result<
    Vec<Id>,
    ConflictableTransactionError<StoreError>,
>)
    ensures
        r matches Ok(ids) ==> {
            &&& added(data@, ids@)
            &&& exists|values: Seq<Seq<u8>>|
                encoded(data@, values) && staged(*final(view)) == put_all(
                    staged(*old(view)),
                    texts(ids@),
                    values,
                )
        },
        r matches Err(ConflictableTransactionError::Abort(e)) ==> e matches StoreError::Bincode(cause)
            && first_rejected_with(data@, cause),
        r matches Err(ConflictableTransactionError::Storage(cause)) ==> some_add_step_failed(data@, cause),
        !(r matches Err(ConflictableTransactionError::Conflict)),
        data@.len() == 0 ==> r is Ok,
{
    let ghost before = staged(*view);
    let ghost mut values: Seq<Seq<u8>> = Seq::empty();
    let mut ids: Vec<Id> = Vec::new();
    let mut i: usize = 0;
    while i < data.len()
        invariant
            i <= data@.len(),
            ids@.len() == i,
            values.len() == i,
            forall|j: int| 0 <= j < i ==> assigned(data@[j], #[trigger] ids@[j]),
            forall|j: int| 0 <= j < i ==> encodes(data@[j], #[trigger] values[j]),
            staged(*view) == put_all(before, texts(ids@), values),
        decreases data@.len() - i,
    {
        let item: &T = data[i];
        let id = match item.id() {
            Some(id) => id,
            None => match generate_id(view) {
                Ok(number) => Id::of_number(number),
                Err(e) => {
                    assert(add_step_failed(data@[i as int], e));
                    return Err(ConflictableTransactionError::Storage(e));
                },
            },
        };
        assert(assigned(data@[i as int], id));
        let bytes = match serialize(item) {
            Ok(bytes) => bytes,
            Err(e) => {
                assert(encoded(data@.take(i as int), values));
                return Err(ConflictableTransactionError::Abort(e));
            },
        };
        let ghost value = bytes@;
        match stage_insert(view, id.as_str(), bytes) {
            Ok(()) => {},
            Err(e) => {
                assert(e matches UnabortableTransactionError::Storage(cause) && add_step_failed(data@[i as int], cause));
                return Err(refused(e));
            },
        }
        proof {
            let grown = ids@.push(id);
            assert(texts(grown).drop_last() == texts(ids@));
            assert(values.push(value).drop_last() == values);
            values = values.push(value);
        }
        ids.push(id);
        i += 1;
    }
    assert(encoded(data@, values));
    Ok(ids)
}

/// The body of the transaction that updates a collection with `data`. It
/// first asks every item for its identifier, and aborts before anything is
/// staged where one has none. Then, for each item in order, it encodes the
/// item and stages the bytes under the identifier's key, whether or not the
/// collection holds an entry there. An item that cannot be encoded aborts the
/// transaction with the codec's error; a step that the engine refuses ends
/// the run with the engine's error. The body returns no conflict of its own,
/// and on no items it stages nothing and succeeds.
pub fn stage_update_all<T: serde::Serialize + Document>(view: &mut TransactionalTree, data: &Vec<&T>) -> (r:
    Result<(), ConflictableTransactionError<StoreError>>)
    ensures
        r is Ok ==> updated(data@),
        r is Ok ==> exists|ids: Seq<Id>, values: Seq<Seq<u8>>|
            {
                &&& ids.len() == data@.len()
                &&& forall|i: int| 0 <= i < data@.len() ==> answers(data@[i], Some(#[trigger] ids[i]))
                &&& encoded(data@, values)
                &&& staged(*final(view)) == put_all(staged(*old(view)), texts(ids), values)
            },
        r matches Err(ConflictableTransactionError::Abort(e)) ==> {
            ||| e is IdentifierRequired && some_answered_none(data@) && staged(*final(view)) == staged(
                *old(view),
            )
            ||| e matches StoreError::Bincode(cause) && first_rejected_with(data@, cause)
        },
        r matches Err(ConflictableTransactionError::Storage(cause)) ==> some_update_step_failed(data@, cause),
        !(r matches Err(ConflictableTransactionError::Conflict)),
        data@.len() == 0 ==> r is Ok,
        some_lacks_id(data@) ==> r matches Err(
            ConflictableTransactionError::Abort(StoreError::IdentifierRequired),
        ),
{
    let ghost before = staged(*view);
    let mut ids: Vec<Id> = Vec::new();
    let mut i: usize = 0;
    while i < data.len()
        invariant
            i <= data@.len(),
            ids@.len() == i,
            forall|j: int| 0 <= j < i ==> answers(data@[j], Some(#[trigger] ids@[j])),
            staged(*view) == before,
        decreases data@.len() - i,
    {
        let item: &T = data[i];
        match item.id() {
            Some(id) => {
                ids.push(id);
            },
            None => {
                return Err(ConflictableTransactionError::Abort(StoreError::IdentifierRequired));
            },
        }
        i += 1;
    }
    assert forall|k: int| 0 <= k < data@.len() implies !lacks_id(#[trigger] data@[k]) by {
        assert(answers(data@[k], Some(ids@[k])));
    }
    let ghost mut values: Seq<Seq<u8>> = Seq::empty();
    let mut i: usize = 0;
    while i < data.len()
        invariant
            i <= data@.len(),
            ids@.len() == data@.len(),
            values.len() == i,
            forall|k: int| 0 <= k < data@.len() ==> !lacks_id(#[trigger] data@[k]),
            forall|j: int| 0 <= j < data@.len() ==> answers(data@[j], Some(#[trigger] ids@[j])),
            forall|j: int| 0 <= j < i ==> encodes(data@[j], #[trigger] values[j]),
            staged(*view) == put_all(before, texts(ids@).take(i as int), values),
        decreases data@.len() - i,
    {
        let item: &T = data[i];
        let bytes = match serialize(item) {
            Ok(bytes) => bytes,
            Err(e) => {
                assert(encoded(data@.take(i as int), values));
                return Err(ConflictableTransactionError::Abort(e));
            },
        };
        let ghost value = bytes@;
        match stage_insert(view, ids[i].as_str(), bytes) {
            Ok(()) => {},
            Err(e) => {
                assert(answers(data@[i as int], Some(ids@[i as int])));
                assert(e matches UnabortableTransactionError::Storage(cause) && update_step_failed(
                    data@[i as int],
                    cause,
                ));
                return Err(refused(e));
            },
        }
        proof {
            let next = texts(ids@).take(i + 1);
            assert(next.drop_last() == texts(ids@).take(i as int));
            assert(next.last() == ids@[i as int]@);
            assert(values.push(value).drop_last() == values);
            values = values.push(value);
        }
        i += 1;
    }
    assert(texts(ids@).take(i as int) == texts(ids@));
    assert(encoded(data@, values));
    Ok(())
}

/// The body of the transaction that removes `ids` from a collection: it
/// stages the removal of each identifier's key, whether or not the collection
/// holds an entry there. It never aborts; a step that the engine refuses
/// ends the run with the engine's error. The body returns no conflict of its
/// own, and on no identifiers it stages nothing and succeeds.
pub fn stage_remove_all(view: &mut TransactionalTree, ids: &Vec<Id>) -> (r: Result<
    (),
    ConflictableTransactionError<StoreError>,
>)
    ensures
        r is Ok ==> staged(*final(view)) == remove_each(staged(*old(view)), texts(ids@)),
        !(r matches Err(ConflictableTransactionError::Abort(_))),
        r matches Err(ConflictableTransactionError::Storage(cause)) ==> some_removal_refused(ids@, cause),
        !(r matches Err(ConflictableTransactionError::Conflict)),
        ids@.len() == 0 ==> r is Ok,
{
    let ghost before = staged(*view);
    let mut i: usize = 0;
    while i < ids.len()
        invariant
            i <= ids@.len(),
            staged(*view) == remove_each(before, texts(ids@).take(i as int)),
        decreases ids@.len() - i,
    {
        let outcome = stage_remove(view, ids[i].as_str());
        proof {
            let next = texts(ids@).take(i + 1);
            assert(next.drop_last() == texts(ids@).take(i as int));
            assert(next.last() == ids@[i as int]@);
        }
        match outcome {
            Ok(()) => {},
            Err(e) => {
                assert(e matches UnabortableTransactionError::Storage(cause) && removal_refused(ids@[i as int]@, cause));
                return Err(refused(e));
            },
        }
        i += 1;
    }
    assert(texts(ids@).take(i as int) == texts(ids@));
    Ok(())
}

/// The transaction of an add that was committed had staged, and nothing
/// else, the encoding of each item under the key of its identifier.
pub proof fn lemma_add_committed<T: serde::Serialize + Document>(tree: sled::Tree, data: Vec<&T>, ids: Vec<Id>)
    requires
        committed(tree, stage_add_all::<T>, data, ids),
    ensures
        added(data@, ids@),
        exists|view: &mut TransactionalTree, values: Seq<Seq<u8>>|
            {
                &&& fresh(*view)
                &&& encoded(data@, values)
                &&& staged(*final(view)) == put_all(Map::empty(), texts(ids@), values)
            },
{
    lemma_committed_run(tree, stage_add_all::<T>, data, ids);
    let view = choose|view: &mut TransactionalTree|
        fresh(*view) && call_ensures(
            stage_add_all::<T>,
            (view, &data),
            Ok::<Vec<Id>, ConflictableTransactionError<StoreError>>(ids),
        );
    let values = choose|values: Seq<Seq<u8>>|
        encoded(data@, values) && staged(*final(view)) == put_all(staged(*view), texts(ids@), values);
    assert(fresh(*view) && encoded(data@, values) && staged(*final(view)) == put_all(
        Map::empty(),
        texts(ids@),
        values,
    ));
}

/// The transaction of an update that was committed had staged, and nothing
/// else, the encoding of each item under the key of the item's own
/// identifier.
pub proof fn lemma_update_committed<T: serde::Serialize + Document>(tree: sled::Tree, data: Vec<&T>)
    requires
        committed(tree, stage_update_all::<T>, data, ()),
    ensures
        updated(data@),
        exists|view: &mut TransactionalTree, ids: Seq<Id>, values: Seq<Seq<u8>>|
            {
                &&& fresh(*view)
                &&& ids.len() == data@.len()
                &&& forall|i: int| 0 <= i < data@.len() ==> answers(data@[i], Some(#[trigger] ids[i]))
                &&& encoded(data@, values)
                &&& staged(*final(view)) == put_all(Map::empty(), texts(ids), values)
            },
{
    lemma_committed_run(tree, stage_update_all::<T>, data, ());
    let view = choose|view: &mut TransactionalTree|
        fresh(*view) && call_ensures(
            stage_update_all::<T>,
            (view, &data),
            Ok::<(), ConflictableTransactionError<StoreError>>(()),
        );
    let (ids, values) = choose|ids: Seq<Id>, values: Seq<Seq<u8>>|
        {
            &&& ids.len() == data@.len()
            &&& forall|i: int| 0 <= i < data@.len() ==> answers(data@[i], Some(#[trigger] ids[i]))
            &&& encoded(data@, values)
            &&& staged(*final(view)) == put_all(staged(*view), texts(ids), values)
        };
    assert({
        &&& fresh(*view)
        &&& ids.len() == data@.len()
        &&& forall|i: int| 0 <= i < data@.len() ==> answers(data@[i], Some(#[trigger] ids[i]))
        &&& encoded(data@, values)
        &&& staged(*final(view)) == put_all(Map::empty(), texts(ids), values)
    });
}

/// The transaction of a removal that was committed had staged, and nothing
/// else, the removal of the key of each identifier.
pub proof fn lemma_remove_committed(tree: sled::Tree, ids: Vec<Id>)
    requires
        committed(tree, stage_remove_all, ids, ()),
    ensures
        exists|view: &mut TransactionalTree|
            fresh(*view) && staged(*final(view)) == remove_each(Map::empty(), texts(ids@)),
{
    lemma_committed_run(tree, stage_remove_all, ids, ());
    let view = choose|view: &mut TransactionalTree|
        fresh(*view) && call_ensures(
            stage_remove_all,
            (view, &ids),
            Ok::<(), ConflictableTransactionError<StoreError>>(()),
        );
    assert(fresh(*view) && staged(*final(view)) == remove_each(Map::empty(), texts(ids@)));
}

} // verus!
