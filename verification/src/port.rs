//! The abstract storage capability.
//!
//! `UserRepository` is the port through which the application service talks
//! to any storage engine. Its contracts speak of an abstract view of the
//! store: a map from assigned id to the `(name, email)` row under that id.
//! Any operation may instead surface an opaque `StorageError`; a failed
//! operation leaves the store unchanged.

use vstd::prelude::*;
use crate::domain::User;

verus! {

/// An opaque storage-layer failure. The detail is kept for internal
/// logging only and is never shown to a caller of the service.
#[derive(Debug, Clone)]
pub struct StorageError {
    pub detail: String,
}

/// `users[i]` listed in strictly ascending id order.
pub open spec fn sorted_by_id(users: Seq<User>) -> bool {
    forall|i: int, j: int| #![trigger users[i], users[j]] 0 <= i < j < users.len() ==> users[i].id < users[j].id
}

/// No two elements of `users` carry the same id.
pub open spec fn unique_ids(users: Seq<User>) -> bool {
    forall|i: int, j: int| #![trigger users[i], users[j]] 0 <= i < j < users.len() ==> users[i].id != users[j].id
}

/// Some element of `users` carries the id `id`.
pub open spec fn has_id(users: Seq<User>, id: int) -> bool {
    exists|i: int| 0 <= i < users.len() && (#[trigger] users[i]).id == id
}

/// The row that a user occupies in the abstract store.
pub open spec fn row(u: User) -> (Seq<char>, Seq<char>) {
    (u.name@, u.email@)
}

/// The abstract store described by a sequence of rows; a later row under
/// the same id overrides an earlier one.
pub open spec fn map_of_rows(users: Seq<User>) -> Map<int, (Seq<char>, Seq<char>)>
    decreases users.len(),
{
    if users.len() == 0 {
        Map::empty()
    } else {
        map_of_rows(users.drop_last()).insert(users.last().id as int, row(users.last()))
    }
}

/// `users` is exactly the store `contents`, listed in ascending id order
/// with every row's fields intact.
pub open spec fn lists_store(users: Seq<User>, contents: Map<int, (Seq<char>, Seq<char>)>) -> bool {
    &&& sorted_by_id(users)
    &&& forall|i: int| 0 <= i < users.len() ==> contents.dom().contains((#[trigger] users[i]).id as int)
        && contents[users[i].id as int] == row(users[i])
    &&& forall|id: int| #[trigger] contents.dom().contains(id) ==> has_id(users, id)
}

/// The storage port: an abstract capability over which the application
/// service is generic, so that it never references a concrete engine.
pub trait UserRepository: Sized {
    /// The engine's internal well-formedness condition, established by its
    /// constructors and preserved by every operation. Engines that Verus
    /// does not see are left with the default.
    open spec fn inv(&self) -> bool {
        true
    }

    /// The abstract contents of the store: assigned id to `(name, email)`.
    /// Engines that Verus does not see are left with the default.
    open spec fn contents(&self) -> Map<int, (Seq<char>, Seq<char>)> {
        Map::empty()
    }

    /// Persist a transient user. On success the engine has assigned a
    /// fresh positive id, returned the same fields under that id, and
    /// added exactly that row; on failure the store is unchanged.
    fn save(&mut self, user: User) -> (r: Result<User, StorageError>)
        requires
            old(self).inv(),
        ensures
            final(self).inv(),
            match r {
                Ok(saved) => saved.id > 0 && !old(self).contents().dom().contains(saved.id as int)
                    && saved.name@ == user.name@ && saved.email@ == user.email@
                    && final(self).contents() == old(self).contents().insert(
                        saved.id as int,
                        (user.name@, user.email@),
                    ),
                Err(_) => final(self).contents() == old(self).contents(),
            },
    ;

    /// Look a row up by id. Absence is a result, not an error.
    fn find_by_id(&self, id: i32) -> (r: Result<Option<User>, StorageError>)
        requires
            self.inv(),
        ensures
            match r {
                Ok(Some(u)) => self.contents().dom().contains(id as int) && u.id == id
                    && row(u) == self.contents()[id as int],
                Ok(None) => !self.contents().dom().contains(id as int),
                Err(_) => true,
            },
    ;

    /// Every row of the store, in ascending id order.
    fn find_all(&self) -> (r: Result<Vec<User>, StorageError>)
        requires
            self.inv(),
        ensures
            match r {
                Ok(users) => lists_store(users@, self.contents()),
                Err(_) => true,
            },
    ;

    /// Remove the row under `id`, if any. Deleting an absent id is not an
    /// error at this layer; the existence check is the service's concern.
    fn delete(&mut self, id: i32) -> (r: Result<(), StorageError>)
        requires
            old(self).inv(),
        ensures
            final(self).inv(),
            match r {
                Ok(()) => final(self).contents() == old(self).contents().remove(id as int),
                Err(_) => final(self).contents() == old(self).contents(),
            },
    ;
}

} // verus!
