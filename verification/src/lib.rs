//! An in-memory user registry with validated insertion, point lookup and
//! filtered retrieval, together with a few small helpers around it.

pub mod registry;
pub mod user;

pub use registry::UserManager;
pub use user::User;
pub use user::Validate;
pub use user::ValidationError;

use vstd::prelude::*;
use vstd::string::StringSliceAdditionalSpecFns;

verus! {

/// The outcome of an operation, for reporting purposes.
#[derive(Debug, PartialEq)]
pub enum OperationStatus {
    Success,
    Failed(String),
    Pending,
}

/// Folds a result into an `OperationStatus`, keeping the error's text.
pub fn process_result<T>(result: Result<T, String>) -> (status: OperationStatus)
    ensures
        result is Ok ==> status == OperationStatus::Success,
        result matches Err(e) ==> status == OperationStatus::Failed(e),
{
    match result {
        Ok(_) => OperationStatus::Success,
        Err(e) => OperationStatus::Failed(e),
    }
}

/// Returns whichever of the two strings has the greater byte length,
/// preferring `y` when they are equal.
pub fn longest<'a>(x: &'a str, y: &'a str) -> (r: &'a str)
    ensures
        x.spec_bytes().len() > y.spec_bytes().len() ==> r == x,
        x.spec_bytes().len() <= y.spec_bytes().len() ==> r == y,
{
    if x.as_bytes().len() > y.as_bytes().len() {
        x
    } else {
        y
    }
}

} // verus!
