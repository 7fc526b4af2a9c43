//! Laws relating successive operations on the store.
//!
//! The service contracts describe each use case in terms of one abstract
//! store: create inserts a fresh row, get returns the row under an id,
//! list enumerates the rows in id order, delete removes one row. These
//! laws state how the operations compose across calls.

use vstd::prelude::*;

verus! {

/// A created user is what a later get of its id yields: once the store
/// has gained `(name, email)` under `id`, the id is present and the row
/// under it is exactly `(name, email)`, so a get returns the same id,
/// name, and email, and a list includes the id.
pub proof fn lemma_create_then_get(
    store: Map<int, (Seq<char>, Seq<char>)>,
    id: int,
    name: Seq<char>,
    email: Seq<char>,
)
    ensures
        store.insert(id, (name, email)).dom().contains(id),
        store.insert(id, (name, email))[id] == (name, email),
{
}

/// A deleted user is gone: once the row under `id` is removed, the id is
/// absent, so a later get of it reports `NotFound` and no listing of the
/// store contains it.
pub proof fn lemma_delete_then_get(store: Map<int, (Seq<char>, Seq<char>)>, id: int)
    ensures
        !store.remove(id).dom().contains(id),
{
}

/// Deleting an absent id changes nothing: the store is the same map
/// afterwards, so a get of that id still reports `NotFound`.
pub proof fn lemma_delete_absent_is_noop(store: Map<int, (Seq<char>, Seq<char>)>, id: int)
    requires
        !store.dom().contains(id),
    ensures
        store.remove(id) =~= store,
{
}

/// Deleting one id disturbs no other row: every other id is present
/// afterwards exactly if it was before, with its row unchanged.
pub proof fn lemma_delete_preserves_others(
    store: Map<int, (Seq<char>, Seq<char>)>,
    id: int,
    other: int,
)
    requires
        other != id,
    ensures
        store.remove(id).dom().contains(other) == store.dom().contains(other),
        store.dom().contains(other) ==> store.remove(id)[other] == store[other],
{
}

} // verus!
