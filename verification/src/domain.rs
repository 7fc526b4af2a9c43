//! The domain entity and its construction rules.
//!
//! A `User` is the sole entity of the library. It can only be built through
//! `User::new`, which enforces the name and email invariants and fails
//! closed: no partially validated value is ever observable.

use vstd::prelude::*;

verus! {

/// Why domain validation rejected a construction request.
#[derive(Debug, Clone, Copy, PartialEq, Eq, Structural)]
pub enum DomainError {
    InvalidName,
    InvalidEmail,
}

/// A name is acceptable when it has between 1 and 100 characters inclusive.
pub open spec fn valid_name(name: Seq<char>) -> bool {
    1 <= name.len() <= 100
}

/// An email is acceptable when it contains `@` and has at least 3
/// characters. This is intentionally weak validation, not a full
/// address grammar.
pub open spec fn valid_email(email: Seq<char>) -> bool {
    email.len() >= 3 && email.contains('@')
}

/// The user entity. `id` is 0 (the sentinel) until a storage engine
/// assigns a real identifier at save time.
#[derive(Debug, Clone)]
pub struct User {
    pub id: i32,
    pub name: String,
    pub email: String,
}

/// Whether `s` contains the character `c`, by a linear scan.
fn str_contains_char(s: &str, c: char) -> (r: bool)
    ensures
        r == s@.contains(c),
{
    let len = s.unicode_len();
    let mut i: usize = 0;
    while i < len
        invariant
            0 <= i <= len,
            len == s@.len(),
            forall|j: int| 0 <= j < i ==> s@[j] != c,
        decreases len - i,
    {
        if s.get_char(i) == c {
            return true;
        }
        i += 1;
    }
    false
}

impl User {
    /// Validated construction. Succeeds exactly when the name and email
    /// invariants hold, and then returns a transient user carrying the
    /// sentinel id; a bad name is reported before a bad email.
    pub fn new(name: String, email: String) -> (r: Result<User, DomainError>)
        ensures
            match r {
                Ok(u) => valid_name(name@) && valid_email(email@) && u.id == 0 && u.name@ == name@
                    && u.email@ == email@,
                Err(DomainError::InvalidName) => !valid_name(name@),
                Err(DomainError::InvalidEmail) => valid_name(name@) && !valid_email(email@),
            },
    {
        let name_len = name.as_str().unicode_len();
        if name_len == 0 || name_len > 100 {
            return Err(DomainError::InvalidName);
        }
        if !str_contains_char(email.as_str(), '@') || email.as_str().unicode_len() < 3 {
            return Err(DomainError::InvalidEmail);
        }
        Ok(User { id: 0, name, email })
    }

    /// The same user under an engine-assigned identifier. Only the storage
    /// layer uses this, at the sentinel-to-real transition.
    pub fn with_id(self, id: i32) -> (r: User)
        ensures
            r.id == id,
            r.name@ == self.name@,
            r.email@ == self.email@,
    {
        User { id, name: self.name, email: self.email }
    }
}

impl DomainError {
    /// The user-facing validation message for this error.
    pub open spec fn message_spec(self) -> Seq<char> {
        match self {
            DomainError::InvalidName => "名前は1文字以上100文字未満で文字未満である必要があります。"@,
            DomainError::InvalidEmail => "無効なメールアドレス形式です"@,
        }
    }

    /// The user-facing validation message for this error.
    pub fn message(&self) -> (r: String)
        ensures
            r@ == self.message_spec(),
    {
        match self {
            DomainError::InvalidName => "名前は1文字以上100文字未満で文字未満である必要があります。".to_owned(),
            DomainError::InvalidEmail => "無効なメールアドレス形式です".to_owned(),
        }
    }
}

} // verus!
