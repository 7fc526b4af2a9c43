//! The wire-facing data transfer objects, distinct from the internal
//! entity: request payloads for construction, and the response
//! representation of a persisted user.

use vstd::prelude::*;
use crate::domain::User;

verus! {

/// The payload for creating a user.
#[derive(Debug)]
pub struct CreateUserRequest {
    pub name: String,
    pub email: String,
}

/// The payload for a partial update; no endpoint consumes it, since
/// users are mutated only by recreation.
#[derive(Debug)]
pub struct UpdateUserRequest {
    pub name: Option<String>,
    pub email: Option<String>,
}

/// The response representation of a persisted user; it carries no
/// internal-only fields.
#[derive(Debug)]
pub struct UserResponse {
    pub id: i32,
    pub name: String,
    pub email: String,
}

impl From<User> for UserResponse {
    fn from(user: User) -> (r: UserResponse) {
        UserResponse { id: user.id, name: user.name, email: user.email }
    }
}

impl vstd::std_specs::convert::FromSpecImpl<User> for UserResponse {
    open spec fn obeys_from_spec() -> bool {
        true
    }

    open spec fn from_spec(user: User) -> Self {
        UserResponse { id: user.id, name: user.name, email: user.email }
    }
}

/// `resps` is exactly the store `contents`, in ascending id order, each
/// row mapped one-to-one onto its response representation.
pub open spec fn responses_match_store(
    resps: Seq<UserResponse>,
    contents: Map<int, (Seq<char>, Seq<char>)>,
) -> bool {
    &&& forall|i: int, j: int|
        #![trigger resps[i], resps[j]]
        0 <= i < j < resps.len() ==> resps[i].id < resps[j].id
    &&& forall|i: int|
        0 <= i < resps.len() ==> contents.dom().contains((#[trigger] resps[i]).id as int)
            && contents[resps[i].id as int] == (resps[i].name@, resps[i].email@)
    &&& forall|id: int| #[trigger]
        contents.dom().contains(id) ==> exists|i: int|
            0 <= i < resps.len() && (#[trigger] resps[i]).id == id
}

} // verus!
