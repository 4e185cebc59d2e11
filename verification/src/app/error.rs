//! The error type handlers return; it turns into an error response.
use vstd::prelude::*;
use vstd::string::StringExecFns;

use crate::app::codes::{response_type_name, response_type_name_spec, ResponseType};

verus! {

/// Error which can be converted to a response, so that `?` works in handler code without
/// leaving a request unanswered.
#[derive(Debug, Clone)]
pub struct CoapError {
    pub code: Option<ResponseType>,
    pub message: String,
}

/// The text `Debug` prints for an optional response code.
pub open spec fn code_debug_spec(code: Option<ResponseType>) -> Seq<char> {
    match code {
        Some(c) => "Some("@ + response_type_name_spec(c) + ")"@,
        None => "None"@,
    }
}

impl CoapError {
    /// An error with the given code and message.
    pub fn for_code(code: ResponseType, msg: &str) -> (r: Self)
        ensures
            r.code == Some(code),
            r.message@ == msg@,
    {
        CoapError { code: Some(code), message: String::from_str(msg) }
    }

    /// A 5.00 Internal Server Error.
    pub fn internal(msg: &str) -> (r: Self)
        ensures
            r.code == Some(ResponseType::InternalServerError),
            r.message@ == msg@,
    {
        Self::for_code(ResponseType::InternalServerError, msg)
    }

    /// A 4.00 Bad Request.
    pub fn bad_request(msg: &str) -> (r: Self)
        ensures
            r.code == Some(ResponseType::BadRequest),
            r.message@ == msg@,
    {
        Self::for_code(ResponseType::BadRequest, msg)
    }

    /// A 4.04 Not Found with the message "Not found".
    pub fn not_found() -> (r: Self)
        ensures
            r.code == Some(ResponseType::NotFound),
            r.message@ == "Not found"@,
    {
        Self::for_code(ResponseType::NotFound, "Not found")
    }

    /// A 4.05 Method Not Allowed with the message "Method not allowed".
    pub fn method_not_allowed() -> (r: Self)
        ensures
            r.code == Some(ResponseType::MethodNotAllowed),
            r.message@ == "Method not allowed"@,
    {
        Self::for_code(ResponseType::MethodNotAllowed, "Method not allowed")
    }

    /// Human readable form: "Handling error {code:?}: {message}".
    pub fn describe(&self) -> (r: String)
        ensures
            r@ == "Handling error "@ + code_debug_spec(self.code) + ": "@ + self.message@,
    {
        let mut s = String::from_str("Handling error ");
        match self.code {
            Some(c) => {
                s.append("Some(");
                s.append(response_type_name(c));
                s.append(")");
            },
            None => {
                s.append("None");
            },
        }
        s.append(": ");
        s.append(self.message.as_str());
        s
    }
}

} // verus!
