//! Keys under which a resource registers its per-method request handlers.
use vstd::prelude::*;

use crate::app::codes::RequestType;

verus! {

/// Handler key for a request method; key 0 matches every method.
#[derive(Debug, Copy, Clone, PartialEq, Eq, PartialOrd, Ord, Hash, Structural)]
pub struct RequestTypeKey(usize);

/// The key number of a method: 1..=7 for Get..iPatch, 0 for an unknown method.
pub open spec fn method_index(t: RequestType) -> nat {
    match t {
        RequestType::Get => 1,
        RequestType::Post => 2,
        RequestType::Put => 3,
        RequestType::Delete => 4,
        RequestType::Fetch => 5,
        RequestType::Patch => 6,
        RequestType::IPatch => 7,
        RequestType::UnKnown => 0,
    }
}

impl View for RequestTypeKey {
    type V = nat;

    closed spec fn view(&self) -> nat {
        self.0 as nat
    }
}

impl RequestTypeKey {
    /// The key that matches every method.
    pub fn new_match_all() -> (r: Self)
        ensures
            r@ == 0,
    {
        RequestTypeKey(0)
    }

    /// The key for a method.
    pub fn for_method(t: RequestType) -> (r: Self)
        ensures
            r@ == method_index(t),
    {
        RequestTypeKey(
            match t {
                RequestType::Get => 1,
                RequestType::Post => 2,
                RequestType::Put => 3,
                RequestType::Delete => 4,
                RequestType::Fetch => 5,
                RequestType::Patch => 6,
                RequestType::IPatch => 7,
                RequestType::UnKnown => 0,
            },
        )
    }

    /// Whether two keys are the same key.
    pub fn same(&self, other: &Self) -> (r: bool)
        ensures
            r == (self@ == other@),
    {
        self.0 == other.0
    }
}

impl From<RequestType> for RequestTypeKey {
    fn from(t: RequestType) -> (r: RequestTypeKey)
        ensures
            r@ == method_index(t),
    {
        RequestTypeKey::for_method(t)
    }
}

impl vstd::std_specs::convert::FromSpecImpl<RequestType> for RequestTypeKey {
    open spec fn obeys_from_spec() -> bool {
        true
    }

    closed spec fn from_spec(t: RequestType) -> RequestTypeKey {
        RequestTypeKey(method_index(t) as usize)
    }
}

/// Each known method has a key of its own: distinct methods get distinct keys, and no known
/// method gets the catch-all key 0 (only an unknown method does).  The keys are Get 1, Post 2,
/// Put 3, Delete 4, Fetch 5, Patch 6 and iPatch 7.
pub proof fn law_method_keys_are_distinct(a: RequestType, b: RequestType)
    ensures
        a != RequestType::UnKnown ==> method_index(a) != 0,
        a == RequestType::UnKnown ==> method_index(a) == 0,
        a != b && a != RequestType::UnKnown && b != RequestType::UnKnown ==> method_index(a) != method_index(b),
        1 <= method_index(a) <= 7 || a == RequestType::UnKnown,
{
}

} // verus!
