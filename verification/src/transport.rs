//! The mapping from application errors to the wire: each kind has a
//! fixed status, a machine-readable code, and a message. Storage detail
//! is deliberately withheld: whatever a `Database` error carries, the
//! caller sees only a generic, localized message.

use vstd::prelude::*;
use crate::services::AppError;

verus! {

/// The wire status of each application error kind.
pub open spec fn status_of(e: AppError) -> int {
    match e {
        AppError::Domain(_) => 400,
        AppError::Database(_) => 500,
        AppError::NotFound => 404,
    }
}

/// The machine-readable code of each application error kind.
pub open spec fn code_of(e: AppError) -> Seq<char> {
    match e {
        AppError::Domain(_) => "VALIDATION_ERROR"@,
        AppError::Database(_) => "DATABASE_ERROR"@,
        AppError::NotFound => "NOT_FOUND"@,
    }
}

/// The user-facing message of each application error kind: validation
/// failures are specific, storage failures generic, absence uniform.
pub open spec fn message_of(e: AppError) -> Seq<char> {
    match e {
        AppError::Domain(d) => d.message_spec(),
        AppError::Database(_) => "データベースエラーが発生しました。"@,
        AppError::NotFound => "リソースが見つかりません。"@,
    }
}

/// An application error on its way out to the wire.
#[derive(Debug)]
pub struct ApiError(pub AppError);

impl From<AppError> for ApiError {
    fn from(err: AppError) -> (r: ApiError) {
        ApiError(err)
    }
}

impl vstd::std_specs::convert::FromSpecImpl<AppError> for ApiError {
    open spec fn obeys_from_spec() -> bool {
        true
    }

    open spec fn from_spec(err: AppError) -> Self {
        ApiError(err)
    }
}

impl ApiError {
    /// The status, error code, and message that this error puts on the
    /// wire; engine detail appears in none of the three.
    pub fn response_parts(&self) -> (r: (u16, String, String))
        ensures
            r.0 == status_of(self.0),
            r.1@ == code_of(self.0),
            r.2@ == message_of(self.0),
    {
        match &self.0 {
            AppError::Domain(e) => (400, "VALIDATION_ERROR".to_owned(), e.message()),
            AppError::Database(_) => (
                500,
                "DATABASE_ERROR".to_owned(),
                "データベースエラーが発生しました。".to_owned(),
            ),
            AppError::NotFound => (
                404,
                "NOT_FOUND".to_owned(),
                "リソースが見つかりません。".to_owned(),
            ),
        }
    }
}

} // verus!
