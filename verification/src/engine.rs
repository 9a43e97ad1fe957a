//! The database engine, `sled`, as the store sees it. Its types are carried
//! as they are; each of its functions that the store calls stands behind one
//! small function here whose body is that call. What those functions return
//! depends on what the database holds, so almost nothing is claimed of it.
//! Instead, for each question that the store puts to the engine, a relation
//! says that the engine was asked and what it answered, and the store's
//! contracts are stated over those relations.

use vstd::prelude::*;
use vstd::utf8::encode_utf8;
use sled::transaction::ConflictableTransactionError;
use sled::transaction::TransactionError;
use sled::transaction::TransactionalTree;
use sled::transaction::UnabortableTransactionError;
use crate::error::StoreError;

verus! {

/// `sled::Db`: a handle to an open database.
#[verifier::external_type_specification]
#[verifier::external_body]
pub struct ExDb(sled::Db);

/// `sled::Tree`: a handle to one tree of a database, an ordered map from
/// keys to values, both of them bytes.
#[verifier::external_type_specification]
#[verifier::external_body]
pub struct ExTree(sled::Tree);

/// `sled::Iter`: a cursor over the entries of a tree.
#[verifier::external_type_specification]
#[verifier::external_body]
pub struct ExIter(sled::Iter);

/// `sled::IVec`: the bytes of a key or a value. No function here takes or
/// gives one; it is declared because the items of `sled::Iter`, as an
/// iterator, hold it, and the verifier reads that impl with the type.
#[verifier::external_type_specification]
#[verifier::external_body]
pub struct ExIVec(sled::IVec);

/// `sled::transaction::TransactionalTree`: the view of a tree that the body
/// of a transaction works on.
#[verifier::external_type_specification]
#[verifier::external_body]
pub struct ExTransactionalTree(TransactionalTree);

/// `sled::transaction::ConflictableTransactionError`: what the body of a
/// transaction returns to stop it; its variants are read as they are.
#[verifier::external_type_specification]
#[verifier::reject_recursive_types(T)]
pub struct ExConflictableTransactionError<T>(ConflictableTransactionError<T>);

/// `sled::transaction::UnabortableTransactionError`: what a step on a
/// transaction's view fails with; its variants are read as they are.
#[verifier::external_type_specification]
pub struct ExUnabortableTransactionError(UnabortableTransactionError);

/// `std::path::PathBuf`: the place of a database in the file system.
#[verifier::external_type_specification]
#[verifier::external_body]
pub struct ExPathBuf(std::path::PathBuf);

/// The writes that a transaction has staged on its view of a tree and not
/// yet committed: each key that it wrote, with the value that it set
/// (`Some`) or the removal that it asked for (`None`). The view keeps them
/// in memory until the engine commits them, so they are settled by the calls
/// made on the view. `sled` stages through a shared reference; here a step
/// that stages takes the view as `&mut`, so that its contract can speak of
/// the writes before and after.
pub uninterp spec fn staged(view: TransactionalTree) -> Map<Seq<u8>, Option<Seq<u8>>>;

/// Nothing is staged on `view`.
pub open spec fn fresh(view: TransactionalTree) -> bool {
    staged(view) == Map::<Seq<u8>, Option<Seq<u8>>>::empty()
}

/// The key under which a tree holds the entry of the identifier `text`: its
/// bytes in UTF-8.
pub open spec fn key_of(text: Seq<char>) -> Seq<u8> {
    encode_utf8(text)
}

/// Two identifiers with the same key are the same identifier: no two
/// documents of a collection share an entry.
pub proof fn lemma_key_injective(a: Seq<char>, b: Seq<char>)
    requires
        key_of(a) == key_of(b),
    ensures
        a == b,
{
    vstd::utf8::encode_utf8_decode_utf8(a);
    vstd::utf8::encode_utf8_decode_utf8(b);
}

/// `sled::open`: opens the database at `path`, creating it where there is
/// none. Nothing is claimed of the outcome.
#[verifier::external_body]
fn sled_open(path: std::path::PathBuf) -> (r: Result<sled::Db, sled::Error>) {
    sled::open(path)
}

/// `Clone::clone` of `sled::Db`: another handle to the same database.
pub assume_specification[ <sled::Db as Clone>::clone ](db: &sled::Db) -> (r: sled::Db);

/// `sled::Db::open_tree`: the tree of that name, created where the database
/// has none. Nothing is claimed of the outcome.
#[verifier::external_body]
fn sled_open_tree(db: &sled::Db, name: &str) -> (r: Result<sled::Tree, sled::Error>) {
    db.open_tree(name)
}

/// `TransactionalTree::generate_id`: the next number of the counter of the
/// database that the tree belongs to. Nothing is staged by it, and nothing
/// is claimed of the outcome.
#[verifier::external_body]
fn sled_generate_id(view: &TransactionalTree) -> (r: Result<u64, sled::Error>) {
    view.generate_id()
}

/// `sled::Tree::get`: the value that the tree holds under the UTF-8 bytes
/// of `key`, copied out, or `None` where it holds none. Nothing is claimed
/// of the outcome.
#[verifier::external_body]
fn sled_get(tree: &sled::Tree, key: &str) -> (r: Result<Option<Vec<u8>>, sled::Error>) {
    tree.get(key).map(|found| found.map(|value| value.to_vec()))
}

/// `sled::Tree::iter`: a cursor that stands before the first entry of the
/// tree, in the order of the keys.
#[verifier::external_body]
fn sled_iter(tree: &sled::Tree) -> (r: sled::Iter) {
    tree.iter()
}

/// `Iterator::next` of `sled::Iter`: the cursor moved on by one entry, with
/// the value of that entry, copied out, or the engine's error, or `None` at
/// the end. Nothing is claimed of the outcome.
#[verifier::external_body]
fn sled_next(cursor: sled::Iter) -> (r: (sled::Iter, Option<Result<Vec<u8>, sled::Error>>)) {
    let mut cursor = cursor;
    let entry = cursor.next().map(|entry| entry.map(|(_, value)| value.to_vec()));
    (cursor, entry)
}

/// `TransactionalTree::insert`: where it returns `Ok`, the transaction has
/// staged `value` under the UTF-8 bytes of `key`, over whatever it had
/// staged there; where it returns an error, nothing new is staged, and the
/// error is a storage error: the engine could not read what the tree holds
/// under the key.
#[verifier::external_body]
fn sled_insert(view: &mut TransactionalTree, key: &str, value: Vec<u8>) -> (r: Result<
    (),
    UnabortableTransactionError,
>)
    ensures
        r is Ok ==> staged(*final(view)) == staged(*old(view)).insert(key_of(key@), Some(value@)),
        r is Err ==> staged(*final(view)) == staged(*old(view)),
        r matches Err(e) ==> e is Storage,
{
    view.insert(key, value).map(|_| ())
}

/// `TransactionalTree::remove`: the transaction has staged the removal of
/// the UTF-8 bytes of `key`, over whatever it had staged there, whether or
/// not the call returns an error. An error is a storage error: the engine
/// could not read what the tree holds under the key.
#[verifier::external_body]
fn sled_remove(view: &mut TransactionalTree, key: &str) -> (r: Result<(), UnabortableTransactionError>)
    ensures
        staged(*final(view)) == staged(*old(view)).insert(key_of(key@), None),
        r matches Err(e) ==> e is Storage,
{
    view.remove(key).map(|_| ())
}

/// `body`, run with `input` on a view with nothing staged, never returns a
/// conflict of its own. The engine runs a body again for as long as it
/// returns one.
pub open spec fn never_conflicts<A, X, G: Fn(&mut TransactionalTree, &X) -> Result<
    A,
    ConflictableTransactionError<StoreError>,
>>(body: G, input: X) -> bool {
    forall|view: &mut TransactionalTree, out: Result<A, ConflictableTransactionError<StoreError>>|
        fresh(*view) && #[trigger] call_ensures(body, (view, &input), out) ==> !(out matches Err(
            ConflictableTransactionError::Conflict,
        ))
}

/// `sled::Tree::transaction`: runs `body` with `input` on a view of the tree
/// on which nothing is staged, and again on a new one after each conflict
/// that a run reports. The body is handed a handle of its own to the view,
/// so that it can be given as `&mut`; what is staged through the handle is
/// staged on the view. When a run returns `Ok`, the engine commits what that
/// run staged, all of it or none, and hands its value back; when a run
/// aborts, nothing is committed and the error of that run comes back. A
/// storage error may come from a run or from the commit. The body must not
/// return a conflict of its own: the engine would run it without end.
#[verifier::external_body]
fn sled_transaction<A, X, G>(tree: &sled::Tree, body: G, input: &X) -> (r: Result<A, TransactionError<StoreError>>) where
    G: Fn(&mut TransactionalTree, &X) -> Result<A, ConflictableTransactionError<StoreError>>,

    requires
        forall|view: &mut TransactionalTree| fresh(*view) ==> call_requires(body, (view, input)),
        never_conflicts(body, *input),
    ensures
        r matches Ok(value) ==> exists|view: &mut TransactionalTree|
            fresh(*view) && call_ensures(
                body,
                (view, input),
                Ok::<A, ConflictableTransactionError<StoreError>>(value),
            ),
        r matches Err(TransactionError::Abort(e)) ==> exists|view: &mut TransactionalTree|
            fresh(*view) && call_ensures(
                body,
                (view, input),
                Err::<A, ConflictableTransactionError<StoreError>>(ConflictableTransactionError::Abort(e)),
            ),
{
    tree.transaction(|view| body(&mut view.clone(), input))
}

/// The engine, asked for the tree `name` of `db`, gave `tree`.
pub closed spec fn opened(db: sled::Db, name: Seq<char>, tree: sled::Tree) -> bool {
    exists|text: &str|
        text@ == name && call_ensures(sled_open_tree, (&db, text), Ok::<sled::Tree, sled::Error>(tree))
}

/// The bytes of a value that was found, or `None`.
pub open spec fn bytes_of(found: Option<Vec<u8>>) -> Option<Seq<u8>> {
    match found {
        Some(value) => Some(value@),
        None => None,
    }
}

/// The engine, asked for the entry of the identifier `id` in `tree`, answered
/// `found`: the value that it holds there, or `None` where it holds none.
pub closed spec fn answered(tree: sled::Tree, id: Seq<char>, found: Option<Seq<u8>>) -> bool {
    exists|text: &str, value: Option<Vec<u8>>|
        text@ == id && bytes_of(value) == found && call_ensures(
            sled_get,
            (&tree, text),
            Ok::<Option<Vec<u8>>, sled::Error>(value),
        )
}

/// What the engine answers when a cursor is moved on: the value of the next
/// entry, a failure to read it, or the end of the tree.
pub enum Scanned {
    Entry(Seq<u8>),
    Failure(sled::Error),
    End,
}

/// The answer that `out` stands for.
pub open spec fn scanned_as(out: Option<Result<Vec<u8>, sled::Error>>) -> Scanned {
    match out {
        Some(Ok(value)) => Scanned::Entry(value@),
        Some(Err(cause)) => Scanned::Failure(cause),
        None => Scanned::End,
    }
}

/// The engine, asked to move a cursor on from `start` as many times as
/// `trace` is long, gave the answers of `trace` in turn and left the cursor
/// at `end`.
pub closed spec fn walked(start: sled::Iter, end: sled::Iter, trace: Seq<Scanned>) -> bool
    decreases trace.len(),
{
    if trace.len() == 0 {
        start == end
    } else {
        exists|mid: sled::Iter, out: Option<Result<Vec<u8>, sled::Error>>|
            walked(start, mid, trace.drop_last()) && scanned_as(out) == trace.last() && call_ensures(
                sled_next,
                (mid,),
                (end, out),
            )
    }
}

/// The engine, asked to walk `tree` from its first entry, gave the answers of
/// `trace` in turn.
pub closed spec fn scanned(tree: sled::Tree, trace: Seq<Scanned>) -> bool {
    exists|start: sled::Iter, end: sled::Iter|
        call_ensures(sled_iter, (&tree,), start) && walked(start, end, trace)
}

/// A walk over the entries of a tree in the order of their keys, with the
/// answers that the engine has given on the way.
pub struct Cursor {
    place: sled::Iter,
    start: Ghost<sled::Iter>,
    tree: Ghost<sled::Tree>,
    trace: Ghost<Seq<Scanned>>,
}

impl Cursor {
    /// The tree that is walked.
    pub closed spec fn tree(&self) -> sled::Tree {
        self.tree@
    }

    /// The answers given so far.
    pub closed spec fn trace(&self) -> Seq<Scanned> {
        self.trace@
    }

    /// The answers of the trace are those that the engine gave on this walk.
    pub closed spec fn wf(&self) -> bool {
        &&& call_ensures(sled_iter, (&self.tree@,), self.start@)
        &&& walked(self.start@, self.place, self.trace@)
    }

    /// The answers of a walk are answers of a walk of its tree.
    pub proof fn lemma_scanned(&self)
        requires
            self.wf(),
        ensures
            scanned(self.tree(), self.trace()),
    {
    }

    /// A walk of `tree` that stands before its first entry.
    pub(crate) fn open(tree: &sled::Tree) -> (r: Cursor)
        ensures
            r.wf(),
            r.tree() == *tree,
            r.trace() == Seq::<Scanned>::empty(),
    {
        let place = sled_iter(tree);
        Cursor { place, start: Ghost(place), tree: Ghost(*tree), trace: Ghost(Seq::empty()) }
    }

    /// Moves the walk on by one entry.
    pub(crate) fn next(self) -> (r: (Cursor, Option<Result<Vec<u8>, sled::Error>>))
        requires
            self.wf(),
        ensures
            r.0.wf(),
            r.0.tree() == self.tree(),
            r.0.trace() == self.trace().push(scanned_as(r.1)),
    {
        let ghost before = self.place;
        let (place, out) = sled_next(self.place);
        let ghost trace = self.trace@.push(scanned_as(out));
        proof {
            assert(trace.drop_last() =~= self.trace@);
            assert(walked(self.start@, before, trace.drop_last()) && scanned_as(out) == trace.last()
                && call_ensures(sled_next, (before,), (place, out)));
        }
        (Cursor { place, start: self.start, tree: self.tree, trace: Ghost(trace) }, out)
    }
}

/// The engine ran `body` with `input` as one transaction on `tree`: a run
/// returned `value`, and the engine committed what that run had staged.
pub closed spec fn committed<A, X, G: Fn(&mut TransactionalTree, &X) -> Result<
    A,
    ConflictableTransactionError<StoreError>,
>>(tree: sled::Tree, body: G, input: X, value: A) -> bool {
    call_ensures(
        sled_transaction::<A, X, G>,
        (&tree, body, &input),
        Ok::<A, TransactionError<StoreError>>(value),
    )
}

/// The engine ran `body` with `input` as a transaction on `tree`, and a run
/// aborted it with `cause`: nothing was committed.
pub closed spec fn aborted<A, X, G: Fn(&mut TransactionalTree, &X) -> Result<
    A,
    ConflictableTransactionError<StoreError>,
>>(tree: sled::Tree, body: G, input: X, cause: StoreError) -> bool {
    call_ensures(
        sled_transaction::<A, X, G>,
        (&tree, body, &input),
        Err::<A, TransactionError<StoreError>>(TransactionError::Abort(cause)),
    )
}

/// The engine ran `body` with `input` as a transaction on `tree`, and a
/// step of a run, or the commit, failed with the storage error `cause`.
pub closed spec fn failed<A, X, G: Fn(&mut TransactionalTree, &X) -> Result<
    A,
    ConflictableTransactionError<StoreError>,
>>(tree: sled::Tree, body: G, input: X, cause: sled::Error) -> bool {
    call_ensures(
        sled_transaction::<A, X, G>,
        (&tree, body, &input),
        Err::<A, TransactionError<StoreError>>(TransactionError::Storage(cause)),
    )
}

/// A transaction that was committed with `value` has a run, on a view with
/// nothing staged, that returned `value`.
pub proof fn lemma_committed_run<A, X, G: Fn(&mut TransactionalTree, &X) -> Result<
    A,
    ConflictableTransactionError<StoreError>,
>>(tree: sled::Tree, body: G, input: X, value: A)
    requires
        committed(tree, body, input, value),
    ensures
        exists|view: &mut TransactionalTree|
            fresh(*view) && call_ensures(
                body,
                (view, &input),
                Ok::<A, ConflictableTransactionError<StoreError>>(value),
            ),
{
}

/// A transaction that was aborted with `cause` has a run, on a view with
/// nothing staged, that aborted with `cause`.
pub proof fn lemma_aborted_run<A, X, G: Fn(&mut TransactionalTree, &X) -> Result<
    A,
    ConflictableTransactionError<StoreError>,
>>(tree: sled::Tree, body: G, input: X, cause: StoreError)
    requires
        aborted::<A, X, G>(tree, body, input, cause),
    ensures
        exists|view: &mut TransactionalTree|
            fresh(*view) && call_ensures(
                body,
                (view, &input),
                Err::<A, ConflictableTransactionError<StoreError>>(ConflictableTransactionError::Abort(cause)),
            ),
{
}

/// Runs `body` with `input` as one transaction on `tree`.
pub(crate) fn transact<A, X, G>(tree: &sled::Tree, body: G, input: &X) -> (r: Result<A, TransactionError<StoreError>>) where
    G: Fn(&mut TransactionalTree, &X) -> Result<A, ConflictableTransactionError<StoreError>>,

    requires
        forall|view: &mut TransactionalTree| fresh(*view) ==> call_requires(body, (view, input)),
        never_conflicts(body, *input),
    ensures
        r matches Ok(value) ==> committed(*tree, body, *input, value),
        r matches Err(TransactionError::Abort(cause)) ==> aborted::<A, X, G>(*tree, body, *input, cause),
        r matches Err(TransactionError::Storage(cause)) ==> failed::<A, X, G>(*tree, body, *input, cause),
{
    sled_transaction(tree, body, input)
}

/// The engine, asked to open the database at `path`, gave `db`.
pub closed spec fn database_at(path: std::path::PathBuf, db: sled::Db) -> bool {
    call_ensures(sled_open, (path,), Ok::<sled::Db, sled::Error>(db))
}

/// The engine, asked to open the database at `path`, failed with `cause`.
pub closed spec fn no_database_at(path: std::path::PathBuf, cause: sled::Error) -> bool {
    call_ensures(sled_open, (path,), Err::<sled::Db, sled::Error>(cause))
}

/// Opens the database at `path`, creating it where there is none: the
/// result is what the engine gave, the database or its error.
pub(crate) fn open_db(path: std::path::PathBuf) -> (r: Result<sled::Db, sled::Error>)
    ensures
        r matches Ok(db) ==> database_at(path, db),
        r matches Err(cause) ==> no_database_at(path, cause),
{
    sled_open(path)
}

/// The engine, asked in a transaction to stage a value under the identifier
/// `id`, failed with `cause`.
pub closed spec fn put_refused(id: Seq<char>, cause: sled::Error) -> bool {
    exists|view: &mut TransactionalTree, text: &str, value: Vec<u8>|
        text@ == id && call_ensures(
            sled_insert,
            (view, text, value),
            Err::<(), UnabortableTransactionError>(UnabortableTransactionError::Storage(cause)),
        )
}

/// Stages `value` under the key of the identifier `key`: the result is what
/// the engine gave.
pub(crate) fn stage_insert(view: &mut TransactionalTree, key: &str, value: Vec<u8>) -> (r: Result<
    (),
    UnabortableTransactionError,
>)
    ensures
        r is Ok ==> staged(*final(view)) == staged(*old(view)).insert(key_of(key@), Some(value@)),
        r is Err ==> staged(*final(view)) == staged(*old(view)),
        r matches Err(e) ==> e matches UnabortableTransactionError::Storage(cause) && put_refused(key@, cause),
{
    sled_insert(view, key, value)
}

/// The engine, asked in a transaction to stage the removal of the identifier
/// `id`, failed with `cause`.
pub closed spec fn removal_refused(id: Seq<char>, cause: sled::Error) -> bool {
    exists|view: &mut TransactionalTree, text: &str|
        text@ == id && call_ensures(
            sled_remove,
            (view, text),
            Err::<(), UnabortableTransactionError>(UnabortableTransactionError::Storage(cause)),
        )
}

/// Stages the removal of the key of the identifier `key`: the result is what
/// the engine gave.
pub(crate) fn stage_remove(view: &mut TransactionalTree, key: &str) -> (r: Result<(), UnabortableTransactionError>)
    ensures
        staged(*final(view)) == staged(*old(view)).insert(key_of(key@), None),
        r matches Err(e) ==> e matches UnabortableTransactionError::Storage(cause) && removal_refused(key@, cause),
{
    sled_remove(view, key)
}

/// The engine's counter gave `number`.
pub closed spec fn counted(number: u64) -> bool {
    exists|view: &TransactionalTree| call_ensures(sled_generate_id, (view,), Ok::<u64, sled::Error>(number))
}

/// The engine, asked for the next number of its counter, failed with
/// `cause`.
pub closed spec fn not_counted(cause: sled::Error) -> bool {
    exists|view: &TransactionalTree| call_ensures(sled_generate_id, (view,), Err::<u64, sled::Error>(cause))
}

/// Asks the engine for the next number of its counter: the result is what
/// the engine gave, the number or its error.
pub(crate) fn generate_id(view: &TransactionalTree) -> (r: Result<u64, sled::Error>)
    ensures
        r matches Ok(number) ==> counted(number),
        r matches Err(cause) ==> not_counted(cause),
{
    sled_generate_id(view)
}

/// The engine, asked for the tree `name` of `db`, failed with `cause`.
pub closed spec fn not_opened(db: sled::Db, name: Seq<char>, cause: sled::Error) -> bool {
    exists|text: &str|
        text@ == name && call_ensures(sled_open_tree, (&db, text), Err::<sled::Tree, sled::Error>(cause))
}

/// Opens the tree `name` of `db`, creating it where there is none: the
/// result is what the engine gave, the tree or its error.
pub(crate) fn open_tree(db: &sled::Db, name: &str) -> (r: Result<sled::Tree, sled::Error>)
    ensures
        r matches Ok(tree) ==> opened(*db, name@, tree),
        r matches Err(cause) ==> not_opened(*db, name@, cause),
{
    sled_open_tree(db, name)
}

/// The engine, asked for the entry of the identifier `id` in `tree`, failed
/// with `cause`.
pub closed spec fn not_answered(tree: sled::Tree, id: Seq<char>, cause: sled::Error) -> bool {
    exists|text: &str|
        text@ == id && call_ensures(sled_get, (&tree, text), Err::<Option<Vec<u8>>, sled::Error>(cause))
}

/// What the engine gave when it was asked for the entry of the identifier
/// `id` in `tree`: the value found, `None`, or its error.
pub open spec fn lookup_answer(tree: sled::Tree, id: Seq<char>, answer: Result<Option<Seq<u8>>, sled::Error>) -> bool {
    match answer {
        Ok(found) => answered(tree, id, found),
        Err(cause) => not_answered(tree, id, cause),
    }
}

/// Asks `tree` for the entry of the identifier `id`: the result is what the
/// engine gave, the value found or `None`, or its error.
pub(crate) fn lookup(tree: &sled::Tree, id: &str) -> (r: Result<Option<Vec<u8>>, sled::Error>)
    ensures
        r matches Ok(found) ==> answered(*tree, id@, bytes_of(found)),
        r matches Err(cause) ==> not_answered(*tree, id@, cause),
{
    sled_get(tree, id)
}

} // verus!
