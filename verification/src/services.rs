//! The application service: orchestrates validation and persistence for
//! each use case and is the single point translating lower-layer
//! failures into the application error taxonomy.

use vstd::prelude::*;
use crate::domain::{DomainError, User, valid_email, valid_name};
use crate::dto::{CreateUserRequest, UserResponse, responses_match_store};
use crate::port::{StorageError, UserRepository};

verus! {

/// The application error taxonomy: a domain invariant was violated (the
/// caller must fix the input), the storage engine failed (surfaced
/// generically), or the requested entity is absent (a valid outcome,
/// not a fault).
#[derive(Debug)]
pub enum AppError {
    Domain(DomainError),
    Database(StorageError),
    NotFound,
}

impl From<DomainError> for AppError {
    fn from(err: DomainError) -> (r: AppError) {
        AppError::Domain(err)
    }
}

impl vstd::std_specs::convert::FromSpecImpl<DomainError> for AppError {
    open spec fn obeys_from_spec() -> bool {
        true
    }

    open spec fn from_spec(err: DomainError) -> Self {
        AppError::Domain(err)
    }
}

impl From<StorageError> for AppError {
    fn from(err: StorageError) -> (r: AppError) {
        AppError::Database(err)
    }
}

impl vstd::std_specs::convert::FromSpecImpl<StorageError> for AppError {
    open spec fn obeys_from_spec() -> bool {
        true
    }

    open spec fn from_spec(err: StorageError) -> Self {
        AppError::Database(err)
    }
}

/// The application service, generic over the storage port so that it
/// never references a concrete engine.
pub struct UserService<R: UserRepository> {
    repository: R,
}

impl<R: UserRepository> UserService<R> {
    /// The abstract store behind the service.
    pub closed spec fn store(&self) -> Map<int, (Seq<char>, Seq<char>)> {
        self.repository.contents()
    }

    /// The injected engine's well-formedness condition.
    pub closed spec fn inv(&self) -> bool {
        self.repository.inv()
    }

    /// A service over the injected storage engine.
    pub fn new(repository: R) -> (s: Self)
        ensures
            s.inv() == repository.inv(),
            s.store() == repository.contents(),
    {
        UserService { repository }
    }

    /// The create use case: validate, then save. A validation failure is
    /// surfaced as the exact domain error and persists nothing; on
    /// success the store gains exactly the new row under a fresh
    /// positive id, and the response carries the fields unchanged.
    pub fn create_user(&mut self, req: CreateUserRequest) -> (r: Result<UserResponse, AppError>)
        requires
            old(self).inv(),
        ensures
            final(self).inv(),
            !valid_name(req.name@) ==> (r matches Err(AppError::Domain(DomainError::InvalidName)))
                && final(self).store() == old(self).store(),
            valid_name(req.name@) && !valid_email(req.email@) ==> (r matches Err(
                AppError::Domain(DomainError::InvalidEmail),
            )) && final(self).store() == old(self).store(),
            valid_name(req.name@) && valid_email(req.email@) ==> match r {
                Ok(resp) => resp.id > 0 && !old(self).store().dom().contains(resp.id as int)
                    && resp.name@ == req.name@ && resp.email@ == req.email@
                    && final(self).store() == old(self).store().insert(
                        resp.id as int,
                        (req.name@, req.email@),
                    ),
                Err(e) => (e matches AppError::Database(_)) && final(self).store() == old(
                    self,
                ).store(),
            },
    {
        let user = match User::new(req.name, req.email) {
            Ok(u) => u,
            Err(e) => return Err(AppError::from(e)),
        };
        let saved = match self.repository.save(user) {
            Ok(u) => u,
            Err(e) => return Err(AppError::from(e)),
        };
        Ok(UserResponse::from(saved))
    }

    /// The get use case: absence of the id becomes `NotFound`; a found
    /// user is returned with id and fields exactly as stored.
    pub fn get_user(&self, id: i32) -> (r: Result<UserResponse, AppError>)
        requires
            self.inv(),
        ensures
            match r {
                Ok(resp) => self.store().dom().contains(id as int) && resp.id == id
                    && (resp.name@, resp.email@) == self.store()[id as int],
                Err(AppError::NotFound) => !self.store().dom().contains(id as int),
                Err(AppError::Database(_)) => true,
                Err(AppError::Domain(_)) => false,
            },
    {
        let found = match self.repository.find_by_id(id) {
            Ok(o) => o,
            Err(e) => return Err(AppError::from(e)),
        };
        match found {
            Some(u) => Ok(UserResponse::from(u)),
            None => Err(AppError::NotFound),
        }
    }

    /// The list use case: every stored row, mapped one-to-one into
    /// response representations, in ascending id order.
    pub fn list_users(&self) -> (r: Result<Vec<UserResponse>, AppError>)
        requires
            self.inv(),
        ensures
            match r {
                Ok(resps) => responses_match_store(resps@, self.store()),
                Err(e) => e matches AppError::Database(_),
            },
    {
        let users = match self.repository.find_all() {
            Ok(u) => u,
            Err(e) => return Err(AppError::from(e)),
        };
        let n = users.len();
        let mut resps: Vec<UserResponse> = Vec::new();
        let mut i: usize = 0;
        while i < n
            invariant
                n == users@.len(),
                0 <= i <= n,
                resps@.len() == i,
                forall|j: int|
                    0 <= j < i ==> (#[trigger] resps@[j]).id == users@[j].id
                        && resps@[j].name@ == users@[j].name@ && resps@[j].email@ == users@[j].email@,
            decreases n - i,
        {
            let u = &users[i];
            resps.push(UserResponse { id: u.id, name: u.name.clone(), email: u.email.clone() });
            i += 1;
        }
        proof {
            assert forall|id: int| #[trigger] self.store().dom().contains(id) implies exists|j: int|
                0 <= j < resps@.len() && (#[trigger] resps@[j]).id == id by {
                let j = choose|j: int| 0 <= j < users@.len() && (#[trigger] users@[j]).id == id;
                assert((resps@[j]).id == id);
            }
            assert(responses_match_store(resps@, self.store()));
        }
        Ok(resps)
    }

    /// The delete use case: confirm existence first (absence becomes
    /// `NotFound`), then delete. On success exactly the row under `id`
    /// is gone; on any failure the store is unchanged.
    pub fn delete_user(&mut self, id: i32) -> (r: Result<(), AppError>)
        requires
            old(self).inv(),
        ensures
            final(self).inv(),
            match r {
                Ok(()) => old(self).store().dom().contains(id as int) && final(self).store()
                    == old(self).store().remove(id as int),
                Err(AppError::NotFound) => !old(self).store().dom().contains(id as int)
                    && final(self).store() == old(self).store(),
                Err(AppError::Database(_)) => final(self).store() == old(self).store(),
                Err(AppError::Domain(_)) => false,
            },
    {
        let found = match self.repository.find_by_id(id) {
            Ok(o) => o,
            Err(e) => return Err(AppError::from(e)),
        };
        if found.is_none() {
            return Err(AppError::NotFound);
        }
        match self.repository.delete(id) {
            Ok(()) => Ok(()),
            Err(e) => Err(AppError::from(e)),
        }
    }
}

} // verus!
