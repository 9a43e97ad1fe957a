//! Reading documents from the tree of a collection: by identifier, and page
//! by page in the order of the keys.

use vstd::prelude::*;
use crate::engine::answered;
use crate::engine::lookup_answer;
use crate::engine::lookup;
use crate::engine::scanned;
use crate::engine::Cursor;
use crate::engine::Scanned;
use crate::error::StoreError;
use crate::id::Id;
use crate::serialize::decodes;
use crate::serialize::deserialize;
use crate::serialize::misread_with;

verus! {

/// `item` is what the codec read from the bytes that the engine found under
/// `id` in `tree`.
pub open spec fn found<T: serde::de::DeserializeOwned>(tree: sled::Tree, id: Id, item: T) -> bool {
    exists|bytes: Seq<u8>| answered(tree, id@, Some(bytes)) && decodes(bytes, item)
}

/// Every document of `items` is what was found and decoded for the
/// identifier at the same position.
pub open spec fn all_found<T: serde::de::DeserializeOwned>(tree: sled::Tree, ids: Seq<Id>, items: Seq<T>) -> bool {
    &&& items.len() == ids.len()
    &&& forall|i: int| 0 <= i < ids.len() ==> found(tree, ids[i], #[trigger] items[i])
}

/// The answer `answer` of a lookup stops the reading with the error `e`:
/// the engine's error, carried as it is; no entry; or bytes from which the
/// codec could not read a document of `T`, with the codec's error carried
/// as it is.
pub open spec fn stops<T: serde::de::DeserializeOwned>(
    answer: Result<Option<Seq<u8>>, sled::Error>,
    e: StoreError,
) -> bool {
    match answer {
        Err(cause) => e == StoreError::Sled(cause),
        Ok(None) => e is NoneError,
        Ok(Some(bytes)) => e matches StoreError::Bincode(cause) && misread_with::<T>(bytes, cause),
    }
}

/// The engine, asked for the entry of `id` in `tree`, gave an answer that
/// stops the reading with `e`.
pub open spec fn stopped_at<T: serde::de::DeserializeOwned>(tree: sled::Tree, id: Id, e: StoreError) -> bool {
    exists|answer: Result<Option<Seq<u8>>, sled::Error>| lookup_answer(tree, id@, answer) && stops::<T>(answer, e)
}

/// The reading of `ids` from `tree` was stopped with `e` at one of them,
/// the first in the order asked that stops it: for every identifier before
/// it an entry was found and decoded.
pub open spec fn first_stopped<T: serde::de::DeserializeOwned>(tree: sled::Tree, ids: Seq<Id>, e: StoreError) -> bool {
    exists|i: int, items: Seq<T>|
        0 <= i < ids.len() && stopped_at::<T>(tree, ids[i], e) && #[trigger] all_found(tree, ids.take(i), items)
}

/// Every document of `items` is what the codec read from the bytes at the
/// same position of `values`.
pub open spec fn decoded_from<T: serde::de::DeserializeOwned>(values: Seq<Seq<u8>>, items: Seq<T>) -> bool {
    &&& items.len() == values.len()
    &&& forall|i: int| 0 <= i < values.len() ==> decodes(values[i], #[trigger] items[i])
}

/// The bytes from which the documents of a successful reading were decoded:
/// for each identifier what the engine found under it.
pub proof fn lemma_found_values<T: serde::de::DeserializeOwned>(tree: sled::Tree, ids: Seq<Id>, items: Seq<T>) -> (values:
    Seq<Seq<u8>>)
    requires
        all_found(tree, ids, items),
    ensures
        values.len() == ids.len(),
        decoded_from(values, items),
        forall|i: int| 0 <= i < ids.len() ==> answered(tree, ids[i]@, Some(#[trigger] values[i])),
{
    let values = Seq::new(
        ids.len(),
        |i: int| choose|bytes: Seq<u8>| answered(tree, ids[i]@, Some(bytes)) && decodes(bytes, items[i]),
    );
    assert forall|i: int| 0 <= i < ids.len() implies answered(tree, ids[i]@, Some(#[trigger] values[i]))
        && decodes(values[i], items[i]) by {
        assert(found(tree, ids[i], items[i]));
    }
    values
}

/// The answers of a walk without the end that may close it.
pub open spec fn before_end(trace: Seq<Scanned>) -> Seq<Scanned> {
    if trace.len() > 0 && trace.last() is End {
        trace.drop_last()
    } else {
        trace
    }
}

/// `item` is what the codec read from the value of the entry `answer`.
pub open spec fn taken<T: serde::de::DeserializeOwned>(answer: Scanned, item: T) -> bool {
    answer matches Scanned::Entry(bytes) && decodes(bytes, item)
}

/// `items` is the page that a walk with the answers `trace` gives. The walk
/// went on until the engine answered that the tree had ended, or until
/// `skip + take` entries had come, and then asked no more; every answer
/// before the end was an entry; the first `skip` entries were passed over,
/// whatever they held; and each entry after them was decoded to the item at
/// the same position. For a page of no items the engine is asked nothing.
pub open spec fn paged<T: serde::de::DeserializeOwned>(
    trace: Seq<Scanned>,
    skip: nat,
    take: nat,
    items: Seq<T>,
) -> bool {
    if take == 0 {
        trace.len() == 0 && items.len() == 0
    } else {
        let entries = before_end(trace);
        &&& forall|k: int| 0 <= k < entries.len() ==> #[trigger] entries[k] is Entry
        &&& entries.len() <= skip + take
        &&& entries.len() < skip + take <==> trace.len() > 0 && trace.last() is End
        &&& items.len() == if entries.len() > skip {
            entries.len() - skip
        } else {
            0
        }
        &&& forall|k: int| 0 <= k < items.len() ==> taken(entries[skip + k], #[trigger] items[k])
    }
}

/// `items` holds what the codec read from the entries of `trace` that lie
/// after the first `skip` and before the last answer, one item for each.
pub open spec fn decoded_before_last<T: serde::de::DeserializeOwned>(
    trace: Seq<Scanned>,
    skip: nat,
    items: Seq<T>,
) -> bool {
    &&& items.len() == if trace.len() - 1 > skip {
        trace.len() - 1 - skip
    } else {
        0
    }
    &&& forall|k: int| 0 <= k < items.len() ==> taken(trace[skip + k], #[trigger] items[k])
}

/// A walk with the answers `trace` broke off at its last answer with the
/// error `e`. Every answer before the last was an entry, and those of them
/// that lie within the page were decoded. The last answer is a failure of
/// the engine, at an entry passed over or within the page, and `e` carries
/// the engine's error as it is; or it is an entry within the page from which
/// the codec could not read a document of `T`, and `e` carries the codec's
/// error as it is.
pub open spec fn broke_off<T: serde::de::DeserializeOwned>(
    trace: Seq<Scanned>,
    skip: nat,
    take: nat,
    e: StoreError,
) -> bool {
    &&& 1 <= trace.len() <= skip + take
    &&& forall|k: int| 0 <= k < trace.len() - 1 ==> #[trigger] trace[k] is Entry
    &&& exists|items: Seq<T>| decoded_before_last(trace, skip, items)
    &&& match trace.last() {
        Scanned::Entry(bytes) => {
            &&& skip < trace.len()
            &&& e matches StoreError::Bincode(cause) && misread_with::<T>(bytes, cause)
        },
        Scanned::Failure(cause) => e == StoreError::Sled(cause),
        Scanned::End => false,
    }
}

/// A page holds no more than `take` items.
pub proof fn lemma_paged_len<T: serde::de::DeserializeOwned>(trace: Seq<Scanned>, skip: nat, take: nat, items: Seq<T>)
    requires
        paged(trace, skip, take, items),
    ensures
        items.len() <= take,
{
}

/// Where the codec reads one document only from given bytes, two pages of
/// one walk are the same page.
pub proof fn lemma_pages_equal<T: serde::de::DeserializeOwned>(
    trace: Seq<Scanned>,
    skip: nat,
    take: nat,
    a: Seq<T>,
    b: Seq<T>,
)
    requires
        paged(trace, skip, take, a),
        paged(trace, skip, take, b),
        forall|bytes: Seq<u8>, x: T, y: T| #[trigger] decodes(bytes, x) && #[trigger] decodes(bytes, y) ==> x == y,
    ensures
        a == b,
{
    assert forall|k: int| 0 <= k < a.len() implies a[k] == b[k] by {
        assert(taken(before_end(trace)[skip + k], a[k]));
        assert(taken(before_end(trace)[skip + k], b[k]));
    }
    assert(a =~= b);
}

/// A page is settled by what the walk answered: two pages of one walk have
/// the same length, and their items at each position are read from the same
/// entry.
pub proof fn lemma_page_determined<T: serde::de::DeserializeOwned>(
    trace: Seq<Scanned>,
    skip: nat,
    take: nat,
    a: Seq<T>,
    b: Seq<T>,
)
    requires
        paged(trace, skip, take, a),
        paged(trace, skip, take, b),
    ensures
        a.len() == b.len(),
        forall|k: int|
            0 <= k < a.len() ==> taken(before_end(trace)[skip + k], #[trigger] a[k]) && taken(
                before_end(trace)[skip + k],
                b[k],
            ),
{
}

proof fn lemma_found_push<T: serde::de::DeserializeOwned>(
    tree: sled::Tree,
    ids: Seq<Id>,
    items: Seq<T>,
    id: Id,
    item: T,
    bytes: Seq<u8>,
)
    requires
        all_found(tree, ids, items),
        answered(tree, id@, Some(bytes)),
        decodes(bytes, item),
    ensures
        all_found(tree, ids.push(id), items.push(item)),
{
    let asked = ids.push(id);
    let grown = items.push(item);
    assert forall|i: int| 0 <= i < asked.len() implies found(tree, asked[i], #[trigger] grown[i]) by {
        if i < ids.len() {
            assert(found(tree, ids[i], items[i]));
        }
    }
}

/// Asks `tree` for the entry of each identifier in turn, once, and decodes
/// what it finds, up to the first identifier that the tree does not hold or
/// whose entry cannot be read or decoded.
pub fn read_each<T: serde::de::DeserializeOwned>(tree: &sled::Tree, ids: &Vec<Id>) -> (r: Result<
    Vec<T>,
    StoreError,
>)
    ensures
        r matches Ok(items) ==> all_found(*tree, ids@, items@),
        r matches Err(e) ==> first_stopped::<T>(*tree, ids@, e),
        ids@.len() == 0 ==> r is Ok,
{
    let mut items: Vec<T> = Vec::new();
    let mut i: usize = 0;
    while i < ids.len()
        invariant
            i <= ids@.len(),
            all_found(*tree, ids@.take(i as int), items@),
        decreases ids@.len() - i,
    {
        let answer = match lookup(tree, ids[i].as_str()) {
            Ok(answer) => answer,
            Err(e) => {
                proof {
                    let given = Err::<Option<Seq<u8>>, sled::Error>(e);
                    assert(lookup_answer(*tree, ids@[i as int]@, given) && stops::<T>(given, StoreError::Sled(e)));
                    assert(all_found(*tree, ids@.take(i as int), items@));
                }
                return Err(StoreError::Sled(e));
            },
        };
        let bytes = match answer {
            Some(bytes) => bytes,
            None => {
                proof {
                    let given = Ok::<Option<Seq<u8>>, sled::Error>(None);
                    assert(lookup_answer(*tree, ids@[i as int]@, given) && stops::<T>(given, StoreError::NoneError));
                    assert(all_found(*tree, ids@.take(i as int), items@));
                }
                return Err(StoreError::NoneError);
            },
        };
        let item = match deserialize::<T>(bytes.as_slice()) {
            Ok(item) => item,
            Err(e) => {
                proof {
                    let given = Ok::<Option<Seq<u8>>, sled::Error>(Some(bytes@));
                    assert(lookup_answer(*tree, ids@[i as int]@, given) && stops::<T>(given, e));
                    assert(all_found(*tree, ids@.take(i as int), items@));
                }
                return Err(e);
            },
        };
        proof {
            lemma_found_push(*tree, ids@.take(i as int), items@, ids@[i as int], item, bytes@);
            assert(ids@.take(i as int).push(ids@[i as int]) == ids@.take(i + 1));
        }
        items.push(item);
        i += 1;
    }
    assert(ids@.take(i as int) == ids@);
    Ok(items)
}

/// Walks `tree` from its first entry: passes over `skip` entries, then
/// decodes the values of the entries that follow until it has `take`
/// documents or the tree ends. An entry that the engine fails to read ends
/// the walk with the engine's error, whether it was to be passed over or
/// decoded.
pub fn read_page<T: serde::de::DeserializeOwned>(tree: &sled::Tree, skip: usize, take: usize) -> (r: Result<
    Vec<T>,
    StoreError,
>)
    ensures
        r matches Ok(items) ==> exists|trace: Seq<Scanned>|
            scanned(*tree, trace) && paged(trace, skip as nat, take as nat, items@),
        r matches Err(e) ==> exists|trace: Seq<Scanned>|
            scanned(*tree, trace) && broke_off::<T>(trace, skip as nat, take as nat, e),
{
    let mut items: Vec<T> = Vec::new();
    let mut cursor = Cursor::open(tree);
    if take == 0 {
        proof {
            cursor.lemma_scanned();
        }
        return Ok(items);
    }
    let mut passed: usize = 0;
    while passed < skip
        invariant
            take > 0,
            passed <= skip,
            items@.len() == 0,
            cursor.wf(),
            cursor.tree() == *tree,
            cursor.trace().len() == passed,
            forall|k: int| 0 <= k < cursor.trace().len() ==> #[trigger] cursor.trace()[k] is Entry,
        decreases skip - passed,
    {
        let (moved, out) = cursor.next();
        cursor = moved;
        match out {
            Some(Ok(_)) => {
                passed += 1;
            },
            Some(Err(e)) => {
                proof {
                    cursor.lemma_scanned();
                    assert(decoded_before_last(cursor.trace(), skip as nat, Seq::<T>::empty()));
                    assert(broke_off::<T>(cursor.trace(), skip as nat, take as nat, StoreError::Sled(e)));
                }
                return Err(StoreError::Sled(e));
            },
            None => {
                proof {
                    cursor.lemma_scanned();
                    assert(before_end(cursor.trace()) == cursor.trace().drop_last());
                    assert(paged(cursor.trace(), skip as nat, take as nat, items@));
                }
                return Ok(items);
            },
        }
    }
    while items.len() < take
        invariant
            take > 0,
            items@.len() <= take,
            cursor.wf(),
            cursor.tree() == *tree,
            cursor.trace().len() == skip + items@.len(),
            forall|k: int| 0 <= k < cursor.trace().len() ==> #[trigger] cursor.trace()[k] is Entry,
            forall|k: int| 0 <= k < items@.len() ==> taken(cursor.trace()[skip + k], #[trigger] items@[k]),
        decreases take - items@.len(),
    {
        let ghost before = cursor.trace();
        let (moved, out) = cursor.next();
        cursor = moved;
        let bytes = match out {
            Some(Ok(bytes)) => bytes,
            Some(Err(e)) => {
                proof {
                    cursor.lemma_scanned();
                    assert(decoded_before_last(cursor.trace(), skip as nat, items@));
                    assert(broke_off::<T>(cursor.trace(), skip as nat, take as nat, StoreError::Sled(e)));
                }
                return Err(StoreError::Sled(e));
            },
            None => {
                proof {
                    cursor.lemma_scanned();
                    assert(before_end(cursor.trace()) == before);
                    assert(paged(cursor.trace(), skip as nat, take as nat, items@));
                }
                return Ok(items);
            },
        };
        let item = match deserialize::<T>(bytes.as_slice()) {
            Ok(item) => item,
            Err(e) => {
                proof {
                    cursor.lemma_scanned();
                    assert(decoded_before_last(cursor.trace(), skip as nat, items@));
                    assert(broke_off::<T>(cursor.trace(), skip as nat, take as nat, e));
                }
                return Err(e);
            },
        };
        proof {
            let grown = items@.push(item);
            assert forall|k: int| 0 <= k < grown.len() implies taken(
                cursor.trace()[skip + k],
                #[trigger] grown[k],
            ) by {
                if k < items@.len() {
                    assert(taken(before[skip + k], items@[k]));
                }
            }
        }
        items.push(item);
    }
    proof {
        cursor.lemma_scanned();
        assert(before_end(cursor.trace()) == cursor.trace());
        assert(paged(cursor.trace(), skip as nat, take as nat, items@));
    }
    Ok(items)
}

} // verus!
