//! Laws on policies that are written out and read back.
use vstd::prelude::*;

use crate::headers::Fields;
use crate::http::{Method, Status};
use crate::options::CacheOptions;
use crate::policy::{captured, PolicyView, Selection};

verus! {

/// The policy that is rebuilt from the parts of another one, as they are written out.
pub open spec fn rebuilt(policy: PolicyView) -> PolicyView {
    captured(
        policy.method,
        policy.vary,
        policy.status,
        policy.fields,
        policy.response_time,
        policy.options,
    )
}

/// A policy that was captured from an exchange is the same after it was written out and read
/// back.
pub proof fn captured_policies_are_restored(
    method: Method,
    vary: Selection,
    status: Status,
    fields: Fields,
    response_time: int,
    options: CacheOptions,
)
    ensures
        rebuilt(captured(method, vary, status, fields, response_time, options)) == captured(
            method,
            vary,
            status,
            fields,
            response_time,
            options,
        ),
{
}

/// A policy that was refreshed by the origin is the same after it was written out and read back.
pub proof fn refreshed_policies_are_restored(
    policy: PolicyView,
    request: Fields,
    update: Fields,
    time: int,
)
    ensures
        rebuilt(policy.refreshed(request, update, time)) == policy.refreshed(request, update, time),
{
}

} // verus!
