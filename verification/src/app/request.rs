//! Defaults for responses paired with a request.
use vstd::prelude::*;

use crate::app::codes::{RequestType, ResponseType};

verus! {

/// The status a fresh response to a request of method `method` starts with: 2.05 Content
/// for Get, 2.01 Created for Post, 2.04 Changed for Put and 2.03 Valid otherwise.
pub open spec fn default_response_code_spec(method: RequestType) -> ResponseType {
    match method {
        RequestType::Get => ResponseType::Content,
        RequestType::Post => ResponseType::Created,
        RequestType::Put => ResponseType::Changed,
        _ => ResponseType::Valid,
    }
}

/// The status a new response to a request with this method starts with.
pub fn default_response_code(method: RequestType) -> (r: ResponseType)
    ensures
        r == default_response_code_spec(method),
{
    match method {
        RequestType::Get => ResponseType::Content,
        RequestType::Post => ResponseType::Created,
        RequestType::Put => ResponseType::Changed,
        _ => ResponseType::Valid,
    }
}

/// Each default status belongs to its method: only Post starts with 2.01 Created, only Get
/// with 2.05 Content, only Put with 2.04 Changed, and every other method (Delete, Fetch,
/// Patch, iPatch, unknown) starts with 2.03 Valid.
pub proof fn law_default_status_by_method(m: RequestType)
    ensures
        default_response_code_spec(m) == ResponseType::Created <==> m == RequestType::Post,
        default_response_code_spec(m) == ResponseType::Content <==> m == RequestType::Get,
        default_response_code_spec(m) == ResponseType::Changed <==> m == RequestType::Put,
        m != RequestType::Get && m != RequestType::Post && m != RequestType::Put ==> default_response_code_spec(m)
            == ResponseType::Valid,
{
}

} // verus!
