//! The service boundary's decisions: request validation and the health
//! payload.

use vstd::prelude::*;
use crate::task::TaskGroup;

verus! {

/// The payload of the health endpoint.
#[derive(Debug, PartialEq, Eq)]
pub struct HealthResponse {
    pub status: String,
}

impl HealthResponse {
    /// The service reports itself healthy.
    pub fn healthy() -> (r: Self)
        ensures
            r.status@ == "healthy"@,
    {
        HealthResponse { status: "healthy".to_owned() }
    }
}

/// Whether a posted task group is acceptable: an empty group is rejected at
/// the service boundary; an empty parallel step within a group is valid.
pub fn validate_task_group(g: &TaskGroup) -> (ok: bool)
    ensures
        ok == (g@.len() > 0),
{
    g.len() > 0
}

} // verus!
