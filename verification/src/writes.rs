//! The writes of a transaction as a map, and what a collection holds once
//! they are committed. The engine does the committing; this is what the
//! store takes it to mean.

use vstd::prelude::*;
use crate::engine::key_of;
use crate::engine::lemma_key_injective;

verus! {

/// The writes of one transaction: each key written, with the value set or
/// the removal asked for.
pub type Writes = Map<Seq<u8>, Option<Seq<u8>>>;

/// What `writes` becomes when, for each identifier in order, the value at the
/// same position is staged under the identifier's key. A later entry for a
/// key replaces an earlier one.
pub open spec fn put_all(writes: Writes, ids: Seq<Seq<char>>, values: Seq<Seq<u8>>) -> Writes
    recommends
        ids.len() == values.len(),
    decreases ids.len(),
{
    if ids.len() == 0 || ids.len() != values.len() {
        writes
    } else {
        put_all(writes, ids.drop_last(), values.drop_last()).insert(
            key_of(ids.last()),
            Some(values.last()),
        )
    }
}

/// What `writes` becomes when the removal of each identifier's key is staged.
pub open spec fn remove_each(writes: Writes, ids: Seq<Seq<char>>) -> Writes
    decreases ids.len(),
{
    if ids.len() == 0 {
        writes
    } else {
        remove_each(writes, ids.drop_last()).insert(key_of(ids.last()), None)
    }
}

/// What a collection holds: under each key, the bytes of a document.
pub type Contents = Map<Seq<u8>, Seq<u8>>;

/// What a collection that held `contents` holds once `writes` are committed
/// to it: a key that was set holds the value set, a key that was removed
/// holds nothing, and every other key holds what it held.
pub open spec fn applied(contents: Contents, writes: Writes) -> Contents {
    Map::new(
        |key: Seq<u8>|
            if writes.contains_key(key) {
                writes[key] is Some
            } else {
                contents.contains_key(key)
            },
        |key: Seq<u8>|
            if writes.contains_key(key) {
                writes[key]->0
            } else {
                contents[key]
            },
    )
}

/// What `put_all` writes, key by key: a key of none of the identifiers is as
/// it was, and the key of an identifier holds the value at the last position
/// of that identifier.
proof fn lemma_put_all_at(writes: Writes, ids: Seq<Seq<char>>, values: Seq<Seq<u8>>, key: Seq<u8>)
    requires
        ids.len() == values.len(),
    ensures
        (forall|i: int| 0 <= i < ids.len() ==> key_of(#[trigger] ids[i]) != key) ==> {
            &&& put_all(writes, ids, values).contains_key(key) == writes.contains_key(key)
            &&& put_all(writes, ids, values)[key] == writes[key]
        },
        forall|i: int|
            0 <= i < ids.len() && key_of(#[trigger] ids[i]) == key && (forall|j: int|
                i < j < ids.len() ==> key_of(#[trigger] ids[j]) != key) ==> {
                &&& put_all(writes, ids, values).contains_key(key)
                &&& put_all(writes, ids, values)[key] == Some(values[i])
            },
    decreases ids.len(),
{
    if ids.len() > 0 {
        let (front, front_values) = (ids.drop_last(), values.drop_last());
        lemma_put_all_at(writes, front, front_values, key);
        assert forall|i: int|
            0 <= i < ids.len() && key_of(#[trigger] ids[i]) == key && (forall|j: int|
                i < j < ids.len() ==> key_of(#[trigger] ids[j]) != key) implies {
            &&& put_all(writes, ids, values).contains_key(key)
            &&& put_all(writes, ids, values)[key] == Some(values[i])
        } by {
            if i < ids.len() - 1 {
                assert(key_of(ids[ids.len() - 1]) != key);
                assert(front[i] == ids[i]);
                assert forall|j: int| i < j < front.len() implies key_of(#[trigger] front[j]) != key by {
                    assert(front[j] == ids[j]);
                }
                assert(front_values[i] == values[i]);
            }
        }
        if forall|i: int| 0 <= i < ids.len() ==> key_of(#[trigger] ids[i]) != key {
            assert forall|i: int| 0 <= i < front.len() implies key_of(#[trigger] front[i]) != key by {
                assert(front[i] == ids[i]);
            }
            assert(key_of(ids[ids.len() - 1]) != key);
        }
    }
}

/// What `remove_each` writes, key by key: a key of none of the identifiers is
/// as it was, and the key of an identifier is removed.
proof fn lemma_remove_each_at(writes: Writes, ids: Seq<Seq<char>>, key: Seq<u8>)
    ensures
        (forall|i: int| 0 <= i < ids.len() ==> key_of(#[trigger] ids[i]) != key) ==> {
            &&& remove_each(writes, ids).contains_key(key) == writes.contains_key(key)
            &&& remove_each(writes, ids)[key] == writes[key]
        },
        (exists|i: int| 0 <= i < ids.len() && key_of(#[trigger] ids[i]) == key) ==> {
            &&& remove_each(writes, ids).contains_key(key)
            &&& remove_each(writes, ids)[key] is None
        },
    decreases ids.len(),
{
    if ids.len() > 0 {
        let front = ids.drop_last();
        lemma_remove_each_at(writes, front, key);
        if forall|i: int| 0 <= i < ids.len() ==> key_of(#[trigger] ids[i]) != key {
            assert forall|i: int| 0 <= i < front.len() implies key_of(#[trigger] front[i]) != key by {
                assert(front[i] == ids[i]);
            }
            assert(key_of(ids[ids.len() - 1]) != key);
        }
        if exists|i: int| 0 <= i < ids.len() && key_of(#[trigger] ids[i]) == key {
            let i = choose|i: int| 0 <= i < ids.len() && key_of(#[trigger] ids[i]) == key;
            if i < ids.len() - 1 {
                assert(front[i] == ids[i]);
            }
        }
    }
}

/// A transaction that stages nothing leaves the collection as it was.
pub proof fn lemma_commit_nothing(contents: Contents)
    ensures
        applied(contents, Map::empty()) == contents,
{
    assert(applied(contents, Map::empty()) =~= contents);
}

/// Removing identifiers that the collection does not hold leaves the
/// collection as it was.
pub proof fn lemma_remove_absent(contents: Contents, ids: Seq<Seq<char>>)
    requires
        forall|i: int| 0 <= i < ids.len() ==> !contents.contains_key(key_of(#[trigger] ids[i])),
    ensures
        applied(contents, remove_each(Map::empty(), ids)) == contents,
{
    let after = applied(contents, remove_each(Map::empty(), ids));
    assert forall|key: Seq<u8>| #[trigger]
        after.contains_key(key) == contents.contains_key(key) && (after.contains_key(key) ==> after[key]
            == contents[key]) by {
        lemma_remove_each_at(Map::empty(), ids, key);
        if exists|i: int| 0 <= i < ids.len() && key_of(#[trigger] ids[i]) == key {
            let i = choose|i: int| 0 <= i < ids.len() && key_of(#[trigger] ids[i]) == key;
            assert(!contents.contains_key(key_of(ids[i])));
        }
    }
    assert(after =~= contents);
}

/// Removing the same identifiers a second time changes nothing.
pub proof fn lemma_remove_twice(contents: Contents, ids: Seq<Seq<char>>)
    ensures
        applied(applied(contents, remove_each(Map::empty(), ids)), remove_each(Map::empty(), ids))
            == applied(contents, remove_each(Map::empty(), ids)),
{
    let once = applied(contents, remove_each(Map::empty(), ids));
    let twice = applied(once, remove_each(Map::empty(), ids));
    assert forall|key: Seq<u8>| #[trigger]
        twice.contains_key(key) == once.contains_key(key) && (twice.contains_key(key) ==> twice[key]
            == once[key]) by {
        lemma_remove_each_at(Map::empty(), ids, key);
    }
    assert(twice =~= once);
}

/// Once the writes of an add or an update are committed, the collection
/// holds, under the identifier at position `i`, the value at position `i`,
/// unless the same identifier stands at a later position; and it holds it
/// whether or not it held an entry there before.
pub proof fn lemma_put_held(contents: Contents, ids: Seq<Seq<char>>, values: Seq<Seq<u8>>, i: int)
    requires
        ids.len() == values.len(),
        0 <= i < ids.len(),
        forall|j: int| i < j < ids.len() ==> #[trigger] ids[j] != ids[i],
    ensures
        applied(contents, put_all(Map::empty(), ids, values)).contains_key(key_of(ids[i])),
        applied(contents, put_all(Map::empty(), ids, values))[key_of(ids[i])] == values[i],
{
    let key = key_of(ids[i]);
    assert forall|j: int| i < j < ids.len() implies key_of(#[trigger] ids[j]) != key by {
        if key_of(ids[j]) == key {
            lemma_key_injective(ids[j], ids[i]);
        }
    }
    lemma_put_all_at(Map::empty(), ids, values, key);
}

/// Committing the writes of an add or an update changes no entry but those
/// of its identifiers.
pub proof fn lemma_put_keeps_others(contents: Contents, ids: Seq<Seq<char>>, values: Seq<Seq<u8>>, key: Seq<u8>)
    requires
        ids.len() == values.len(),
        forall|i: int| 0 <= i < ids.len() ==> key_of(#[trigger] ids[i]) != key,
    ensures
        applied(contents, put_all(Map::empty(), ids, values)).contains_key(key) == contents.contains_key(key),
        contents.contains_key(key) ==> applied(contents, put_all(Map::empty(), ids, values))[key]
            == contents[key],
{
    lemma_put_all_at(Map::empty(), ids, values, key);
}

/// Once the removal of `ids` is committed, the collection holds none of
/// them, and every other entry is as it was.
pub proof fn lemma_removed(contents: Contents, ids: Seq<Seq<char>>, key: Seq<u8>)
    ensures
        (exists|i: int| 0 <= i < ids.len() && key_of(#[trigger] ids[i]) == key) ==> !applied(
            contents,
            remove_each(Map::empty(), ids),
        ).contains_key(key),
        (forall|i: int| 0 <= i < ids.len() ==> key_of(#[trigger] ids[i]) != key) ==> {
            &&& applied(contents, remove_each(Map::empty(), ids)).contains_key(key)
                == contents.contains_key(key)
            &&& contents.contains_key(key) ==> applied(contents, remove_each(Map::empty(), ids))[key]
                == contents[key]
        },
{
    lemma_remove_each_at(Map::empty(), ids, key);
}

} // verus!
