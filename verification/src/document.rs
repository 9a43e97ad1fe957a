//! What a type offers to be stored.

use vstd::prelude::*;
use crate::id::Id;

verus! {

/// What a type offers to be stored: the name of the collection that holds its
/// values, and, where a value has one, its own identifier.
pub trait Document {
    /// The name of the collection. It is the same for every value of the
    /// type, and must stay the same for as long as the store lives.
    const COLLECTION_NAME: &'static str;

    /// The name of the collection of this value.
    fn name(&self) -> (r: &str)
        default_ensures
            r@ == Self::COLLECTION_NAME@,
    {
        Self::COLLECTION_NAME
    }

    /// The identifier that the value brings with it; `None` asks the store to
    /// allocate one when the value is added.
    fn id(&self) -> (r: Option<Id>)
        default_ensures
            r is None,
    {
        None
    }
}

/// `id` is an answer that `item` gives when asked for its identifier.
pub open spec fn answers<T: Document>(item: &T, id: Option<Id>) -> bool {
    call_ensures(T::id, (item,), id)
}

/// `item` brings no identifier: whenever it is asked, it answers `None`.
pub open spec fn lacks_id<T: Document>(item: &T) -> bool {
    forall|id: Option<Id>| answers(item, id) ==> id is None
}

/// One value, or a list of them.
#[derive(Debug, Clone, PartialEq)]
pub enum ItemOrList<T> {
    Item(T),
    List(Vec<T>),
}

} // verus!
