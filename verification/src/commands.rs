//! What every command handler shares: the idempotency-key check and how a
//! repository outcome becomes a command reply.
use vstd::prelude::*;

use crate::domain::{reports_repo_error, valid_id, EntityId, IdempotencyKey, RepoError};
use crate::ipc::{is_unauthorized, AppError, CommandResult, ErrorCode};
use crate::text::copy_string;

verus! {

/// The refusal of a missing or malformed idempotency key.
pub open spec fn is_key_refusal(e: AppError) -> bool {
    &&& e.code == ErrorCode::InvalidRequest
    &&& e.message@ == "A valid idempotency key is required."@
    &&& !e.retryable
    &&& e.field matches Some(f) && f@ == "idempotencyKey"@
}

/// The refusal of a missing or malformed operation id.
pub open spec fn is_operation_id_refusal(e: AppError) -> bool {
    &&& e.code == ErrorCode::InvalidRequest
    &&& e.message@ == "A valid operation ID is required."@
    &&& !e.retryable
    &&& e.field matches Some(f) && f@ == "operationId"@
}

pub fn require_idempotency_key(value: &str) -> (r: Result<IdempotencyKey, AppError>)
    ensures
        valid_id(value@) ==> (r matches Ok(k) && k.0@ == value@),
        !valid_id(value@) ==> (r matches Err(e) && is_key_refusal(e)),
{
    match IdempotencyKey::parse(value) {
        Ok(key) => Ok(key),
        Err(_) => Err(
            AppError::new(
                ErrorCode::InvalidRequest,
                copy_string("A valid idempotency key is required."),
                false,
            ).with_field(copy_string("idempotencyKey")),
        ),
    }
}

pub fn require_operation_id(value: &str) -> (r: Result<EntityId, AppError>)
    ensures
        valid_id(value@) ==> (r matches Ok(k) && k.0@ == value@),
        !valid_id(value@) ==> (r matches Err(e) && is_operation_id_refusal(e)),
{
    match EntityId::parse(value) {
        Ok(id) => Ok(id),
        Err(_) => Err(
            AppError::new(
                ErrorCode::InvalidRequest,
                copy_string("A valid operation ID is required."),
                false,
            ).with_field(copy_string("operationId")),
        ),
    }
}

/// `r` fails with an error for which `e` holds.
pub open spec fn fails_with<T>(r: CommandResult<T>, e: AppError) -> bool {
    r == CommandResult::<T>::Failure { ok: false, error: e }
}

/// `r` refuses the calling window.
pub open spec fn refuses_caller<T>(r: CommandResult<T>) -> bool {
    r matches CommandResult::Failure { ok, error } && !ok && is_unauthorized(error)
}

/// `r` refuses the idempotency key.
pub open spec fn refuses_key<T>(r: CommandResult<T>) -> bool {
    r matches CommandResult::Failure { ok, error } && !ok && is_key_refusal(error)
}

/// `r` refuses the operation id.
pub open spec fn refuses_operation_id<T>(r: CommandResult<T>) -> bool {
    r matches CommandResult::Failure { ok, error } && !ok && is_operation_id_refusal(error)
}

/// `r` reports a repository error.
pub open spec fn fails_with_repo<T>(r: CommandResult<T>, e: RepoError) -> bool {
    r matches CommandResult::Failure { ok, error } && !ok && reports_repo_error(e, error)
}

/// `r` reports the outcome of a repository operation that answers with the
/// record and the revision it now has.
pub open spec fn reports_revisioned<T>(o: Result<(T, u64), RepoError>, r: CommandResult<T>) -> bool {
    match o {
        Ok((data, revision)) => r == CommandResult::Success { ok: true, data, revision },
        Err(e) => fails_with_repo(r, e),
    }
}

/// `r` reports the outcome of a read, which answers at revision 1.
pub open spec fn reports_read<T>(o: Result<T, RepoError>, r: CommandResult<T>) -> bool {
    match o {
        Ok(data) => r == CommandResult::Success { ok: true, data, revision: 1 },
        Err(e) => fails_with_repo(r, e),
    }
}

pub fn report_revisioned<T>(o: Result<(T, u64), RepoError>) -> (r: CommandResult<T>)
    ensures
        reports_revisioned(o, r),
{
    match o {
        Ok((data, revision)) => CommandResult::success(data, revision),
        Err(e) => CommandResult::failure(e.to_app_error()),
    }
}

pub fn report_read<T>(o: Result<T, RepoError>) -> (r: CommandResult<T>)
    ensures
        reports_read(o, r),
{
    match o {
        Ok(data) => CommandResult::success(data, 1),
        Err(e) => CommandResult::failure(e.to_app_error()),
    }
}

} // verus!
