//! CoAP message types, request methods and response codes as plain values, with the
//! numeric code classification taken from `coap_lite`.
use vstd::prelude::*;

verus! {

/// The four CoAP message types.
#[derive(Debug, Copy, Clone, PartialEq, Eq, Structural)]
pub enum MessageType {
    Confirmable,
    NonConfirmable,
    Acknowledgement,
    Reset,
}

/// The request methods known to `coap_lite`.
#[derive(Debug, Copy, Clone, PartialEq, Eq, Structural)]
pub enum RequestType {
    Get,
    Post,
    Put,
    Delete,
    Fetch,
    Patch,
    IPatch,
    UnKnown,
}

/// The response codes known to `coap_lite`.
#[derive(Debug, Copy, Clone, PartialEq, Eq, Structural)]
pub enum ResponseType {
    Created,
    Deleted,
    Valid,
    Changed,
    Content,
    Continue,
    BadRequest,
    Unauthorized,
    BadOption,
    Forbidden,
    NotFound,
    MethodNotAllowed,
    NotAcceptable,
    Conflict,
    PreconditionFailed,
    RequestEntityTooLarge,
    UnsupportedContentFormat,
    RequestEntityIncomplete,
    UnprocessableEntity,
    TooManyRequests,
    InternalServerError,
    NotImplemented,
    BadGateway,
    ServiceUnavailable,
    GatewayTimeout,
    ProxyingNotSupported,
    HopLimitReached,
    UnKnown,
}

/// The class of a message code: empty, a request, a response or a reserved code.
#[derive(Debug, Copy, Clone, PartialEq, Eq, Structural)]
pub enum CodeClass {
    Empty,
    Request,
    Response,
    Reserved,
}

/// The codes that `coap_lite` reads as responses.
pub open spec fn is_response_code(code: u8) -> bool {
    ||| 0x41 <= code <= 0x45
    ||| code == 0x5F
    ||| 0x80 <= code <= 0x86
    ||| code == 0x88
    ||| code == 0x89
    ||| code == 0x8C
    ||| code == 0x8D
    ||| code == 0x8F
    ||| code == 0x96
    ||| code == 0x9d
    ||| 0xA0 <= code <= 0xA5
    ||| code == 0xA8
}

/// The class `coap_lite` gives to a numeric message code.
pub open spec fn code_class_spec(code: u8) -> CodeClass {
    if code == 0 {
        CodeClass::Empty
    } else if 1 <= code <= 7 {
        CodeClass::Request
    } else if is_response_code(code) {
        CodeClass::Response
    } else {
        CodeClass::Reserved
    }
}

/// Classifies a numeric message code through `coap_lite::MessageClass::from`.
///
/// Trusted: `coap_lite` maps 0 to `Empty`, 1..=7 to the request methods, the codes listed in
/// `is_response_code` to responses, and every other byte to `Reserved` (see
/// `impl From<u8> for MessageClass` in coap-lite's header.rs).
#[verifier::external_body]
pub(crate) fn code_class(code: u8) -> (r: CodeClass)
    ensures
        r == code_class_spec(code),
{
    match coap_lite::MessageClass::from(code) {
        coap_lite::MessageClass::Empty => CodeClass::Empty,
        coap_lite::MessageClass::Request(_) => CodeClass::Request,
        coap_lite::MessageClass::Response(_) => CodeClass::Response,
        coap_lite::MessageClass::Reserved(_) => CodeClass::Reserved,
    }
}

/// The name `Debug` prints for a message type.
pub open spec fn message_type_name_spec(t: MessageType) -> Seq<char> {
    match t {
        MessageType::Confirmable => "Confirmable"@,
        MessageType::NonConfirmable => "NonConfirmable"@,
        MessageType::Acknowledgement => "Acknowledgement"@,
        MessageType::Reset => "Reset"@,
    }
}

/// The name of a message type, as `Debug` prints it.
pub fn message_type_name(t: MessageType) -> (r: &'static str)
    ensures
        r@ == message_type_name_spec(t),
{
    match t {
        MessageType::Confirmable => "Confirmable",
        MessageType::NonConfirmable => "NonConfirmable",
        MessageType::Acknowledgement => "Acknowledgement",
        MessageType::Reset => "Reset",
    }
}

/// The name `Debug` prints for a response code.
pub open spec fn response_type_name_spec(t: ResponseType) -> Seq<char> {
    match t {
        ResponseType::Created => "Created"@,
        ResponseType::Deleted => "Deleted"@,
        ResponseType::Valid => "Valid"@,
        ResponseType::Changed => "Changed"@,
        ResponseType::Content => "Content"@,
        ResponseType::Continue => "Continue"@,
        ResponseType::BadRequest => "BadRequest"@,
        ResponseType::Unauthorized => "Unauthorized"@,
        ResponseType::BadOption => "BadOption"@,
        ResponseType::Forbidden => "Forbidden"@,
        ResponseType::NotFound => "NotFound"@,
        ResponseType::MethodNotAllowed => "MethodNotAllowed"@,
        ResponseType::NotAcceptable => "NotAcceptable"@,
        ResponseType::Conflict => "Conflict"@,
        ResponseType::PreconditionFailed => "PreconditionFailed"@,
        ResponseType::RequestEntityTooLarge => "RequestEntityTooLarge"@,
        ResponseType::UnsupportedContentFormat => "UnsupportedContentFormat"@,
        ResponseType::RequestEntityIncomplete => "RequestEntityIncomplete"@,
        ResponseType::UnprocessableEntity => "UnprocessableEntity"@,
        ResponseType::TooManyRequests => "TooManyRequests"@,
        ResponseType::InternalServerError => "InternalServerError"@,
        ResponseType::NotImplemented => "NotImplemented"@,
        ResponseType::BadGateway => "BadGateway"@,
        ResponseType::ServiceUnavailable => "ServiceUnavailable"@,
        ResponseType::GatewayTimeout => "GatewayTimeout"@,
        ResponseType::ProxyingNotSupported => "ProxyingNotSupported"@,
        ResponseType::HopLimitReached => "HopLimitReached"@,
        ResponseType::UnKnown => "UnKnown"@,
    }
}

/// The name of a response code, as `Debug` prints it.
pub fn response_type_name(t: ResponseType) -> (r: &'static str)
    ensures
        r@ == response_type_name_spec(t),
{
    match t {
        ResponseType::Created => "Created",
        ResponseType::Deleted => "Deleted",
        ResponseType::Valid => "Valid",
        ResponseType::Changed => "Changed",
        ResponseType::Content => "Content",
        ResponseType::Continue => "Continue",
        ResponseType::BadRequest => "BadRequest",
        ResponseType::Unauthorized => "Unauthorized",
        ResponseType::BadOption => "BadOption",
        ResponseType::Forbidden => "Forbidden",
        ResponseType::NotFound => "NotFound",
        ResponseType::MethodNotAllowed => "MethodNotAllowed",
        ResponseType::NotAcceptable => "NotAcceptable",
        ResponseType::Conflict => "Conflict",
        ResponseType::PreconditionFailed => "PreconditionFailed",
        ResponseType::RequestEntityTooLarge => "RequestEntityTooLarge",
        ResponseType::UnsupportedContentFormat => "UnsupportedContentFormat",
        ResponseType::RequestEntityIncomplete => "RequestEntityIncomplete",
        ResponseType::UnprocessableEntity => "UnprocessableEntity",
        ResponseType::TooManyRequests => "TooManyRequests",
        ResponseType::InternalServerError => "InternalServerError",
        ResponseType::NotImplemented => "NotImplemented",
        ResponseType::BadGateway => "BadGateway",
        ResponseType::ServiceUnavailable => "ServiceUnavailable",
        ResponseType::GatewayTimeout => "GatewayTimeout",
        ResponseType::ProxyingNotSupported => "ProxyingNotSupported",
        ResponseType::HopLimitReached => "HopLimitReached",
        ResponseType::UnKnown => "UnKnown",
    }
}

} // verus!
