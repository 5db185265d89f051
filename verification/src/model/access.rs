//! The grant that lets a user reach a service.

use vstd::prelude::*;

verus! {

/// A grant: the record exists exactly when `user_id` may use `service_id`.
#[derive(Clone, Copy, Debug, PartialEq, Eq, Structural)]
pub struct ServiceAccess {
    pub user_id: u64,
    pub service_id: u64,
}

impl ServiceAccess {
    /// The grant of `service_id` to `user_id`.
    pub fn new(user_id: u64, service_id: u64) -> (access: ServiceAccess)
        ensures
            access == (ServiceAccess { user_id, service_id }),
    {
        ServiceAccess { user_id, service_id }
    }
}

} // verus!
