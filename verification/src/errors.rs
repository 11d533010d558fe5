//! The error taxonomy shared by every operation of the core.

use vstd::prelude::*;

verus! {

/// Typed failures of the core: a string that could not be parsed into a
/// typed identifier, a lookup that required presence and found nothing, a
/// mutation the acting user is not allowed to perform, and an opaque
/// backend failure carrying a diagnostic message.
#[derive(Debug)]
pub enum AppError {
    ConversionEntityError(String),
    EntityNotFound(String),
    ForbiddenOperation,
    SpecificOperationError(String),
}

/// Gate for operations reserved to administrators: succeeds exactly when
/// the acting user is an administrator, and otherwise refuses the
/// operation.
pub fn require_admin(is_admin: bool) -> (r: Result<(), AppError>)
    ensures
        r is Ok <==> is_admin,
        r is Err ==> r->Err_0 is ForbiddenOperation,
{
    if is_admin {
        Ok(())
    } else {
        Err(AppError::ForbiddenOperation)
    }
}

/// Turns the absence of an entity whose presence was required into the
/// not-found error: the result is the entity exactly when one was found.
pub fn require_found<T>(found: Option<T>) -> (r: Result<T, AppError>)
    ensures
        r is Ok <==> found is Some,
        r is Ok ==> r->Ok_0 == found->Some_0,
        r is Err ==> r->Err_0 is EntityNotFound,
{
    match found {
        Some(v) => Ok(v),
        None => Err(AppError::EntityNotFound("entity not found".to_owned())),
    }
}

} // verus!
