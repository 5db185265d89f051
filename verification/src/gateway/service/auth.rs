//! Decides whether a user may connect to a service.

use vstd::prelude::*;
use vstd::string::*;
use crate::error::AppError;
use crate::gateway::config::{
    RESPCODE_0403_FORBIDDEN, RESPCODE_0421_UNKNOWN_USER, RESPCODE_0422_INACTIVE_USER,
};
use crate::gateway::repository::access_repo::AccessRepository;
use crate::gateway::repository::user_repo::UserRepository;
use crate::model::access::ServiceAccess;
use crate::model::user::{Status, User};

verus! {

/// The response code that refuses `user_id` the use of `service_id`, if
/// anything does: 421 when the user is not on record, 422 when the account
/// is not active, 403 when the service is not granted to the user.
pub open spec fn refusal(
    users: Map<u64, User>,
    accesses: Map<(u64, u64), ServiceAccess>,
    user_id: u64,
    service_id: u64,
) -> Option<u16> {
    if !users.contains_key(user_id) {
        Some(421u16)
    } else if users[user_id].status != Status::Active {
        Some(422u16)
    } else if !accesses.contains_key((user_id, service_id)) {
        Some(403u16)
    } else {
        None
    }
}

/// The message that goes with a refusal.
pub open spec fn refusal_message(code: u16) -> Seq<char> {
    if code == 421 {
        "[E0421] Unknown user is inactive"@
    } else if code == 422 {
        "[E0422] User account is inactive"@
    } else {
        "[E0403] Access is forbidden"@
    }
}

/// Decides whether `user_id` may connect to `service_id`: the user must be
/// on record and active, and the service granted to the user. Answers
/// with the grant, or with the error that carries the response code.
pub fn authorize<U: UserRepository, A: AccessRepository>(
    users: &U,
    accesses: &A,
    user_id: u64,
    service_id: u64,
) -> (result: Result<ServiceAccess, AppError>)
    requires
        users.valid(),
        accesses.valid(),
    ensures
        match result {
            Ok(access) => refusal(users.records(), accesses.records(), user_id, service_id)
                is None && access == accesses.records()[(user_id, service_id)],
            Err(err) => refusal(users.records(), accesses.records(), user_id, service_id)
                matches Some(code) && err.is_coded(code, refusal_message(code)),
        },
{
    let user = match users.get(user_id) {
        Ok(Some(user)) => user,
        _ => {
            return Err(
                AppError::GenWithCodeAndMsg(
                    RESPCODE_0421_UNKNOWN_USER,
                    String::from_str("[E0421] Unknown user is inactive"),
                ),
            );
        },
    };
    match user.status {
        Status::Active => {},
        Status::Inactive => {
            return Err(
                AppError::GenWithCodeAndMsg(
                    RESPCODE_0422_INACTIVE_USER,
                    String::from_str("[E0422] User account is inactive"),
                ),
            );
        },
    }
    match accesses.get(user_id, service_id) {
        Ok(Some(access)) => Ok(access),
        _ => Err(
            AppError::GenWithCodeAndMsg(
                RESPCODE_0403_FORBIDDEN,
                String::from_str("[E0403] Access is forbidden"),
            ),
        ),
    }
}

} // verus!
