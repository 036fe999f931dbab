//! HTTP status codes, their numbers and their reason phrases.
use vstd::prelude::*;

use crate::error::{Error, ErrorType};
use crate::text::{dec, fmt_u128, push_all, string_of};

verus! {

/// The HTTP status codes that this library knows, grouped by class
/// (1xx informational, 2xx success, 3xx redirection, 4xx client error,
/// 5xx server error).
#[derive(Debug, Clone, Copy, PartialEq, Eq, Hash, Structural)]
pub enum HttpStatus {
    Continue,
    SwitchingProtocols,
    Processing,
    OK,
    Created,
    Accepted,
    NonAuthoritativeInformation,
    NoContent,
    ResetContent,
    PartialContent,
    MultiStatus,
    AlreadyReported,
    MultipleChoices,
    MovedPermanently,
    Found,
    SeeOther,
    NotModified,
    UseProxy,
    SwitchProxy,
    TemporaryRedirect,
    BadRequest,
    Unauthorized,
    PaymentRequired,
    Forbidden,
    NotFound,
    MethodNotAllowed,
    NotAcceptable,
    ProxyAuthenticationRequired,
    RequestTimeout,
    Conflict,
    Gone,
    LengthRequired,
    PreconditionFailed,
    RequestEntityTooLarge,
    RequestUriTooLarge,
    UnsupportedMediaType,
    RequestedRangeNotSatisfiable,
    ExpectationFailed,
    ImATeapot,
    UnprocessableEntity,
    Locked,
    FailedDependency,
    UnorderedCollection,
    UpgradeRequired,
    PreconditionRequired,
    TooManyRequests,
    RequestHeaderFieldsTooLarge,
    UnavailableForLegalReasons,
    InternalServerError,
    NotImplemented,
    BadGateway,
    ServiceUnavailable,
    GatewayTimeout,
    HttpVersionNotSupported,
    VariantAlsoNegotiates,
    InsufficientStorage,
    LoopDetected,
    NetworkAuthenticationRequired,
}

/// The number of each status.
pub open spec fn status_code(s: HttpStatus) -> u16 {
    match s {
        HttpStatus::Continue => 100,
        HttpStatus::SwitchingProtocols => 101,
        HttpStatus::Processing => 102,
        HttpStatus::OK => 200,
        HttpStatus::Created => 201,
        HttpStatus::Accepted => 202,
        HttpStatus::NonAuthoritativeInformation => 203,
        HttpStatus::NoContent => 204,
        HttpStatus::ResetContent => 205,
        HttpStatus::PartialContent => 206,
        HttpStatus::MultiStatus => 207,
        HttpStatus::AlreadyReported => 208,
        HttpStatus::MultipleChoices => 300,
        HttpStatus::MovedPermanently => 301,
        HttpStatus::Found => 302,
        HttpStatus::SeeOther => 303,
        HttpStatus::NotModified => 304,
        HttpStatus::UseProxy => 305,
        HttpStatus::SwitchProxy => 306,
        HttpStatus::TemporaryRedirect => 307,
        HttpStatus::BadRequest => 400,
        HttpStatus::Unauthorized => 401,
        HttpStatus::PaymentRequired => 402,
        HttpStatus::Forbidden => 403,
        HttpStatus::NotFound => 404,
        HttpStatus::MethodNotAllowed => 405,
        HttpStatus::NotAcceptable => 406,
        HttpStatus::ProxyAuthenticationRequired => 407,
        HttpStatus::RequestTimeout => 408,
        HttpStatus::Conflict => 409,
        HttpStatus::Gone => 410,
        HttpStatus::LengthRequired => 411,
        HttpStatus::PreconditionFailed => 412,
        HttpStatus::RequestEntityTooLarge => 413,
        HttpStatus::RequestUriTooLarge => 414,
        HttpStatus::UnsupportedMediaType => 415,
        HttpStatus::RequestedRangeNotSatisfiable => 416,
        HttpStatus::ExpectationFailed => 417,
        HttpStatus::ImATeapot => 418,
        HttpStatus::UnprocessableEntity => 422,
        HttpStatus::Locked => 423,
        HttpStatus::FailedDependency => 424,
        HttpStatus::UnorderedCollection => 425,
        HttpStatus::UpgradeRequired => 426,
        HttpStatus::PreconditionRequired => 428,
        HttpStatus::TooManyRequests => 429,
        HttpStatus::RequestHeaderFieldsTooLarge => 431,
        HttpStatus::UnavailableForLegalReasons => 451,
        HttpStatus::InternalServerError => 500,
        HttpStatus::NotImplemented => 501,
        HttpStatus::BadGateway => 502,
        HttpStatus::ServiceUnavailable => 503,
        HttpStatus::GatewayTimeout => 504,
        HttpStatus::HttpVersionNotSupported => 505,
        HttpStatus::VariantAlsoNegotiates => 506,
        HttpStatus::InsufficientStorage => 507,
        HttpStatus::LoopDetected => 508,
        HttpStatus::NetworkAuthenticationRequired => 511,
    }
}

/// The status that a number names, if any.
pub open spec fn status_of_code(code: u16) -> Option<HttpStatus> {
    match code {
        100 => Some(HttpStatus::Continue),
        101 => Some(HttpStatus::SwitchingProtocols),
        102 => Some(HttpStatus::Processing),
        200 => Some(HttpStatus::OK),
        201 => Some(HttpStatus::Created),
        202 => Some(HttpStatus::Accepted),
        203 => Some(HttpStatus::NonAuthoritativeInformation),
        204 => Some(HttpStatus::NoContent),
        205 => Some(HttpStatus::ResetContent),
        206 => Some(HttpStatus::PartialContent),
        207 => Some(HttpStatus::MultiStatus),
        208 => Some(HttpStatus::AlreadyReported),
        300 => Some(HttpStatus::MultipleChoices),
        301 => Some(HttpStatus::MovedPermanently),
        302 => Some(HttpStatus::Found),
        303 => Some(HttpStatus::SeeOther),
        304 => Some(HttpStatus::NotModified),
        305 => Some(HttpStatus::UseProxy),
        306 => Some(HttpStatus::SwitchProxy),
        307 => Some(HttpStatus::TemporaryRedirect),
        400 => Some(HttpStatus::BadRequest),
        401 => Some(HttpStatus::Unauthorized),
        402 => Some(HttpStatus::PaymentRequired),
        403 => Some(HttpStatus::Forbidden),
        404 => Some(HttpStatus::NotFound),
        405 => Some(HttpStatus::MethodNotAllowed),
        406 => Some(HttpStatus::NotAcceptable),
        407 => Some(HttpStatus::ProxyAuthenticationRequired),
        408 => Some(HttpStatus::RequestTimeout),
        409 => Some(HttpStatus::Conflict),
        410 => Some(HttpStatus::Gone),
        411 => Some(HttpStatus::LengthRequired),
        412 => Some(HttpStatus::PreconditionFailed),
        413 => Some(HttpStatus::RequestEntityTooLarge),
        414 => Some(HttpStatus::RequestUriTooLarge),
        415 => Some(HttpStatus::UnsupportedMediaType),
        416 => Some(HttpStatus::RequestedRangeNotSatisfiable),
        417 => Some(HttpStatus::ExpectationFailed),
        418 => Some(HttpStatus::ImATeapot),
        422 => Some(HttpStatus::UnprocessableEntity),
        423 => Some(HttpStatus::Locked),
        424 => Some(HttpStatus::FailedDependency),
        425 => Some(HttpStatus::UnorderedCollection),
        426 => Some(HttpStatus::UpgradeRequired),
        428 => Some(HttpStatus::PreconditionRequired),
        429 => Some(HttpStatus::TooManyRequests),
        431 => Some(HttpStatus::RequestHeaderFieldsTooLarge),
        451 => Some(HttpStatus::UnavailableForLegalReasons),
        500 => Some(HttpStatus::InternalServerError),
        501 => Some(HttpStatus::NotImplemented),
        502 => Some(HttpStatus::BadGateway),
        503 => Some(HttpStatus::ServiceUnavailable),
        504 => Some(HttpStatus::GatewayTimeout),
        505 => Some(HttpStatus::HttpVersionNotSupported),
        506 => Some(HttpStatus::VariantAlsoNegotiates),
        507 => Some(HttpStatus::InsufficientStorage),
        508 => Some(HttpStatus::LoopDetected),
        511 => Some(HttpStatus::NetworkAuthenticationRequired),
        _ => None,
    }
}

/// The reason phrase of each status.
pub open spec fn reason(s: HttpStatus) -> Seq<char> {
    match s {
        HttpStatus::Continue => "Continue"@,
        HttpStatus::SwitchingProtocols => "Switching Protocols"@,
        HttpStatus::Processing => "Processing"@,
        HttpStatus::OK => "OK"@,
        HttpStatus::Created => "Created"@,
        HttpStatus::Accepted => "Accepted"@,
        HttpStatus::NonAuthoritativeInformation => "Non-Authoritative Information"@,
        HttpStatus::NoContent => "No Content"@,
        HttpStatus::ResetContent => "Reset Content"@,
        HttpStatus::PartialContent => "Partial Content"@,
        HttpStatus::MultiStatus => "Multi-status"@,
        HttpStatus::AlreadyReported => "Already Reported"@,
        HttpStatus::MultipleChoices => "Multiple Choices"@,
        HttpStatus::MovedPermanently => "Moved Permanently"@,
        HttpStatus::Found => "Found"@,
        HttpStatus::SeeOther => "See Other"@,
        HttpStatus::NotModified => "Not Modified"@,
        HttpStatus::UseProxy => "Use Proxy"@,
        HttpStatus::SwitchProxy => "Switch Proxy"@,
        HttpStatus::TemporaryRedirect => "Temporary Redirect"@,
        HttpStatus::BadRequest => "Bad Request"@,
        HttpStatus::Unauthorized => "Unauthorized"@,
        HttpStatus::PaymentRequired => "Payment Required"@,
        HttpStatus::Forbidden => "Forbidden"@,
        HttpStatus::NotFound => "Not Found"@,
        HttpStatus::MethodNotAllowed => "Method Not Allowed"@,
        HttpStatus::NotAcceptable => "Not Acceptable"@,
        HttpStatus::ProxyAuthenticationRequired => "Proxy Authentication Required"@,
        HttpStatus::RequestTimeout => "Request Time-out"@,
        HttpStatus::Conflict => "Conflict"@,
        HttpStatus::Gone => "Gone"@,
        HttpStatus::LengthRequired => "Length Required"@,
        HttpStatus::PreconditionFailed => "Precondition Failed"@,
        HttpStatus::RequestEntityTooLarge => "Request Entities Too Large"@,
        HttpStatus::RequestUriTooLarge => "Request-URI Too Large"@,
        HttpStatus::UnsupportedMediaType => "Unsupported Media Type"@,
        HttpStatus::RequestedRangeNotSatisfiable => "Requested range not satisfiable"@,
        HttpStatus::ExpectationFailed => "Expectation Failed"@,
        HttpStatus::ImATeapot => "I'm a teapot"@,
        HttpStatus::UnprocessableEntity => "Unprocessable Entities"@,
        HttpStatus::Locked => "Locked"@,
        HttpStatus::FailedDependency => "Failed Dependency"@,
        HttpStatus::UnorderedCollection => "Unordered Collection"@,
        HttpStatus::UpgradeRequired => "Upgrade Required"@,
        HttpStatus::PreconditionRequired => "Precondition Required"@,
        HttpStatus::TooManyRequests => "Too Many Requests"@,
        HttpStatus::RequestHeaderFieldsTooLarge => "Request Header Fields Too Large"@,
        HttpStatus::UnavailableForLegalReasons => "Unavailable For Legal Reasons"@,
        HttpStatus::InternalServerError => "Internal Server Error"@,
        HttpStatus::NotImplemented => "Not Implemented"@,
        HttpStatus::BadGateway => "Bad Gateway"@,
        HttpStatus::ServiceUnavailable => "Service Unavailable"@,
        HttpStatus::GatewayTimeout => "Gateway Time-out"@,
        HttpStatus::HttpVersionNotSupported => "HTTP Version not supported"@,
        HttpStatus::VariantAlsoNegotiates => "Variant Also Negotiates"@,
        HttpStatus::InsufficientStorage => "Insufficient Storage"@,
        HttpStatus::LoopDetected => "Loop Detected"@,
        HttpStatus::NetworkAuthenticationRequired => "Network Authentication Required"@,
    }
}

impl HttpStatus {
    /// The numeric status code.
    pub fn to_u16(&self) -> (r: u16)
        ensures
            r == status_code(*self),
    {
        match self {
            HttpStatus::Continue => 100,
            HttpStatus::SwitchingProtocols => 101,
            HttpStatus::Processing => 102,
            HttpStatus::OK => 200,
            HttpStatus::Created => 201,
            HttpStatus::Accepted => 202,
            HttpStatus::NonAuthoritativeInformation => 203,
            HttpStatus::NoContent => 204,
            HttpStatus::ResetContent => 205,
            HttpStatus::PartialContent => 206,
            HttpStatus::MultiStatus => 207,
            HttpStatus::AlreadyReported => 208,
            HttpStatus::MultipleChoices => 300,
            HttpStatus::MovedPermanently => 301,
            HttpStatus::Found => 302,
            HttpStatus::SeeOther => 303,
            HttpStatus::NotModified => 304,
            HttpStatus::UseProxy => 305,
            HttpStatus::SwitchProxy => 306,
            HttpStatus::TemporaryRedirect => 307,
            HttpStatus::BadRequest => 400,
            HttpStatus::Unauthorized => 401,
            HttpStatus::PaymentRequired => 402,
            HttpStatus::Forbidden => 403,
            HttpStatus::NotFound => 404,
            HttpStatus::MethodNotAllowed => 405,
            HttpStatus::NotAcceptable => 406,
            HttpStatus::ProxyAuthenticationRequired => 407,
            HttpStatus::RequestTimeout => 408,
            HttpStatus::Conflict => 409,
            HttpStatus::Gone => 410,
            HttpStatus::LengthRequired => 411,
            HttpStatus::PreconditionFailed => 412,
            HttpStatus::RequestEntityTooLarge => 413,
            HttpStatus::RequestUriTooLarge => 414,
            HttpStatus::UnsupportedMediaType => 415,
            HttpStatus::RequestedRangeNotSatisfiable => 416,
            HttpStatus::ExpectationFailed => 417,
            HttpStatus::ImATeapot => 418,
            HttpStatus::UnprocessableEntity => 422,
            HttpStatus::Locked => 423,
            HttpStatus::FailedDependency => 424,
            HttpStatus::UnorderedCollection => 425,
            HttpStatus::UpgradeRequired => 426,
            HttpStatus::PreconditionRequired => 428,
            HttpStatus::TooManyRequests => 429,
            HttpStatus::RequestHeaderFieldsTooLarge => 431,
            HttpStatus::UnavailableForLegalReasons => 451,
            HttpStatus::InternalServerError => 500,
            HttpStatus::NotImplemented => 501,
            HttpStatus::BadGateway => 502,
            HttpStatus::ServiceUnavailable => 503,
            HttpStatus::GatewayTimeout => 504,
            HttpStatus::HttpVersionNotSupported => 505,
            HttpStatus::VariantAlsoNegotiates => 506,
            HttpStatus::InsufficientStorage => 507,
            HttpStatus::LoopDetected => 508,
            HttpStatus::NetworkAuthenticationRequired => 511,
        }
    }

    /// The reason phrase that goes with the status code.
    pub fn reason_phrase(&self) -> (r: &'static str)
        ensures
            r@ == reason(*self),
    {
        match self {
            HttpStatus::Continue => "Continue",
            HttpStatus::SwitchingProtocols => "Switching Protocols",
            HttpStatus::Processing => "Processing",
            HttpStatus::OK => "OK",
            HttpStatus::Created => "Created",
            HttpStatus::Accepted => "Accepted",
            HttpStatus::NonAuthoritativeInformation => "Non-Authoritative Information",
            HttpStatus::NoContent => "No Content",
            HttpStatus::ResetContent => "Reset Content",
            HttpStatus::PartialContent => "Partial Content",
            HttpStatus::MultiStatus => "Multi-status",
            HttpStatus::AlreadyReported => "Already Reported",
            HttpStatus::MultipleChoices => "Multiple Choices",
            HttpStatus::MovedPermanently => "Moved Permanently",
            HttpStatus::Found => "Found",
            HttpStatus::SeeOther => "See Other",
            HttpStatus::NotModified => "Not Modified",
            HttpStatus::UseProxy => "Use Proxy",
            HttpStatus::SwitchProxy => "Switch Proxy",
            HttpStatus::TemporaryRedirect => "Temporary Redirect",
            HttpStatus::BadRequest => "Bad Request",
            HttpStatus::Unauthorized => "Unauthorized",
            HttpStatus::PaymentRequired => "Payment Required",
            HttpStatus::Forbidden => "Forbidden",
            HttpStatus::NotFound => "Not Found",
            HttpStatus::MethodNotAllowed => "Method Not Allowed",
            HttpStatus::NotAcceptable => "Not Acceptable",
            HttpStatus::ProxyAuthenticationRequired => "Proxy Authentication Required",
            HttpStatus::RequestTimeout => "Request Time-out",
            HttpStatus::Conflict => "Conflict",
            HttpStatus::Gone => "Gone",
            HttpStatus::LengthRequired => "Length Required",
            HttpStatus::PreconditionFailed => "Precondition Failed",
            HttpStatus::RequestEntityTooLarge => "Request Entities Too Large",
            HttpStatus::RequestUriTooLarge => "Request-URI Too Large",
            HttpStatus::UnsupportedMediaType => "Unsupported Media Type",
            HttpStatus::RequestedRangeNotSatisfiable => "Requested range not satisfiable",
            HttpStatus::ExpectationFailed => "Expectation Failed",
            HttpStatus::ImATeapot => "I'm a teapot",
            HttpStatus::UnprocessableEntity => "Unprocessable Entities",
            HttpStatus::Locked => "Locked",
            HttpStatus::FailedDependency => "Failed Dependency",
            HttpStatus::UnorderedCollection => "Unordered Collection",
            HttpStatus::UpgradeRequired => "Upgrade Required",
            HttpStatus::PreconditionRequired => "Precondition Required",
            HttpStatus::TooManyRequests => "Too Many Requests",
            HttpStatus::RequestHeaderFieldsTooLarge => "Request Header Fields Too Large",
            HttpStatus::UnavailableForLegalReasons => "Unavailable For Legal Reasons",
            HttpStatus::InternalServerError => "Internal Server Error",
            HttpStatus::NotImplemented => "Not Implemented",
            HttpStatus::BadGateway => "Bad Gateway",
            HttpStatus::ServiceUnavailable => "Service Unavailable",
            HttpStatus::GatewayTimeout => "Gateway Time-out",
            HttpStatus::HttpVersionNotSupported => "HTTP Version not supported",
            HttpStatus::VariantAlsoNegotiates => "Variant Also Negotiates",
            HttpStatus::InsufficientStorage => "Insufficient Storage",
            HttpStatus::LoopDetected => "Loop Detected",
            HttpStatus::NetworkAuthenticationRequired => "Network Authentication Required",
        }
    }

    /// The status with the given number; a number that names no status is
    /// refused as invalid input.
    pub fn from_u16(code: u16) -> (r: Result<HttpStatus, Error>)
        ensures
            r matches Ok(s) ==> status_of_code(code) == Some(s),
            r is Err <==> status_of_code(code) is None,
            r matches Err(e) ==> e.error_type == ErrorType::InvalidInput && e.message@
                == "Invalid HTTP status code: "@ + dec(code as nat),
    {
        match code {
            100 => Ok(HttpStatus::Continue),
            101 => Ok(HttpStatus::SwitchingProtocols),
            102 => Ok(HttpStatus::Processing),
            200 => Ok(HttpStatus::OK),
            201 => Ok(HttpStatus::Created),
            202 => Ok(HttpStatus::Accepted),
            203 => Ok(HttpStatus::NonAuthoritativeInformation),
            204 => Ok(HttpStatus::NoContent),
            205 => Ok(HttpStatus::ResetContent),
            206 => Ok(HttpStatus::PartialContent),
            207 => Ok(HttpStatus::MultiStatus),
            208 => Ok(HttpStatus::AlreadyReported),
            300 => Ok(HttpStatus::MultipleChoices),
            301 => Ok(HttpStatus::MovedPermanently),
            302 => Ok(HttpStatus::Found),
            303 => Ok(HttpStatus::SeeOther),
            304 => Ok(HttpStatus::NotModified),
            305 => Ok(HttpStatus::UseProxy),
            306 => Ok(HttpStatus::SwitchProxy),
            307 => Ok(HttpStatus::TemporaryRedirect),
            400 => Ok(HttpStatus::BadRequest),
            401 => Ok(HttpStatus::Unauthorized),
            402 => Ok(HttpStatus::PaymentRequired),
            403 => Ok(HttpStatus::Forbidden),
            404 => Ok(HttpStatus::NotFound),
            405 => Ok(HttpStatus::MethodNotAllowed),
            406 => Ok(HttpStatus::NotAcceptable),
            407 => Ok(HttpStatus::ProxyAuthenticationRequired),
            408 => Ok(HttpStatus::RequestTimeout),
            409 => Ok(HttpStatus::Conflict),
            410 => Ok(HttpStatus::Gone),
            411 => Ok(HttpStatus::LengthRequired),
            412 => Ok(HttpStatus::PreconditionFailed),
            413 => Ok(HttpStatus::RequestEntityTooLarge),
            414 => Ok(HttpStatus::RequestUriTooLarge),
            415 => Ok(HttpStatus::UnsupportedMediaType),
            416 => Ok(HttpStatus::RequestedRangeNotSatisfiable),
            417 => Ok(HttpStatus::ExpectationFailed),
            418 => Ok(HttpStatus::ImATeapot),
            422 => Ok(HttpStatus::UnprocessableEntity),
            423 => Ok(HttpStatus::Locked),
            424 => Ok(HttpStatus::FailedDependency),
            425 => Ok(HttpStatus::UnorderedCollection),
            426 => Ok(HttpStatus::UpgradeRequired),
            428 => Ok(HttpStatus::PreconditionRequired),
            429 => Ok(HttpStatus::TooManyRequests),
            431 => Ok(HttpStatus::RequestHeaderFieldsTooLarge),
            451 => Ok(HttpStatus::UnavailableForLegalReasons),
            500 => Ok(HttpStatus::InternalServerError),
            501 => Ok(HttpStatus::NotImplemented),
            502 => Ok(HttpStatus::BadGateway),
            503 => Ok(HttpStatus::ServiceUnavailable),
            504 => Ok(HttpStatus::GatewayTimeout),
            505 => Ok(HttpStatus::HttpVersionNotSupported),
            506 => Ok(HttpStatus::VariantAlsoNegotiates),
            507 => Ok(HttpStatus::InsufficientStorage),
            508 => Ok(HttpStatus::LoopDetected),
            511 => Ok(HttpStatus::NetworkAuthenticationRequired),
            _ => {
                let mut m = crate::text::chars_of("Invalid HTTP status code: ");
                let n = fmt_u128(code as u128);
                push_all(&mut m, &n);
                let msg = string_of(&m);
                Err(Error::invalid_input(msg.as_str()))
            },
        }
    }
}

/// Reading back the number of a status gives the status.
pub proof fn lemma_status_code_roundtrip(s: HttpStatus)
    ensures
        status_of_code(status_code(s)) == Some(s),
{
}

/// A number that names a status is that status's number.
pub proof fn lemma_code_status_roundtrip(code: u16)
    ensures
        status_of_code(code) matches Some(s) ==> status_code(s) == code,
{
}

/// Distinct statuses have distinct numbers.
pub proof fn lemma_status_code_injective(a: HttpStatus, b: HttpStatus)
    ensures
        status_code(a) == status_code(b) ==> a == b,
{
    lemma_status_code_roundtrip(a);
    lemma_status_code_roundtrip(b);
}

/// Distinct statuses have distinct reason phrases: a phrase names at most one
/// status.
pub proof fn lemma_reason_injective(a: HttpStatus, b: HttpStatus)
    ensures
        reason(a) == reason(b) ==> a == b,
{
    reveal_strlit("Continue");
    assert("Continue"@.len() == 8 && "Continue"@[0] == 'C' && "Continue"@[7] == 'e');
    reveal_strlit("Switching Protocols");
    assert("Switching Protocols"@.len() == 19 && "Switching Protocols"@[0] == 'S' && "Switching Protocols"@[7] == 'n');
    reveal_strlit("Processing");
    assert("Processing"@.len() == 10 && "Processing"@[0] == 'P' && "Processing"@[7] == 'i');
    reveal_strlit("OK");
    assert("OK"@.len() == 2 && "OK"@[0] == 'O');
    reveal_strlit("Created");
    assert("Created"@.len() == 7 && "Created"@[0] == 'C');
    reveal_strlit("Accepted");
    assert("Accepted"@.len() == 8 && "Accepted"@[0] == 'A' && "Accepted"@[7] == 'd');
    reveal_strlit("Non-Authoritative Information");
    assert("Non-Authoritative Information"@.len() == 29 && "Non-Authoritative Information"@[0] == 'N' && "Non-Authoritative Information"@[7] == 'h');
    reveal_strlit("No Content");
    assert("No Content"@.len() == 10 && "No Content"@[0] == 'N' && "No Content"@[7] == 'e');
    reveal_strlit("Reset Content");
    assert("Reset Content"@.len() == 13 && "Reset Content"@[0] == 'R' && "Reset Content"@[7] == 'o');
    reveal_strlit("Partial Content");
    assert("Partial Content"@.len() == 15 && "Partial Content"@[0] == 'P' && "Partial Content"@[7] == ' ');
    reveal_strlit("Multi-status");
    assert("Multi-status"@.len() == 12 && "Multi-status"@[0] == 'M' && "Multi-status"@[7] == 't');
    reveal_strlit("Already Reported");
    assert("Already Reported"@.len() == 16 && "Already Reported"@[0] == 'A' && "Already Reported"@[7] == ' ');
    reveal_strlit("Multiple Choices");
    assert("Multiple Choices"@.len() == 16 && "Multiple Choices"@[0] == 'M' && "Multiple Choices"@[7] == 'e');
    reveal_strlit("Moved Permanently");
    assert("Moved Permanently"@.len() == 17 && "Moved Permanently"@[0] == 'M' && "Moved Permanently"@[7] == 'e');
    reveal_strlit("Found");
    assert("Found"@.len() == 5 && "Found"@[0] == 'F');
    reveal_strlit("See Other");
    assert("See Other"@.len() == 9 && "See Other"@[0] == 'S' && "See Other"@[7] == 'e');
    reveal_strlit("Not Modified");
    assert("Not Modified"@.len() == 12 && "Not Modified"@[0] == 'N' && "Not Modified"@[7] == 'i');
    reveal_strlit("Use Proxy");
    assert("Use Proxy"@.len() == 9 && "Use Proxy"@[0] == 'U' && "Use Proxy"@[7] == 'x');
    reveal_strlit("Switch Proxy");
    assert("Switch Proxy"@.len() == 12 && "Switch Proxy"@[0] == 'S' && "Switch Proxy"@[7] == 'P');
    reveal_strlit("Temporary Redirect");
    assert("Temporary Redirect"@.len() == 18 && "Temporary Redirect"@[0] == 'T' && "Temporary Redirect"@[7] == 'r');
    reveal_strlit("Bad Request");
    assert("Bad Request"@.len() == 11 && "Bad Request"@[0] == 'B' && "Bad Request"@[7] == 'u');
    reveal_strlit("Unauthorized");
    assert("Unauthorized"@.len() == 12 && "Unauthorized"@[0] == 'U' && "Unauthorized"@[7] == 'r');
    reveal_strlit("Payment Required");
    assert("Payment Required"@.len() == 16 && "Payment Required"@[0] == 'P' && "Payment Required"@[7] == ' ');
    reveal_strlit("Forbidden");
    assert("Forbidden"@.len() == 9 && "Forbidden"@[0] == 'F' && "Forbidden"@[7] == 'e');
    reveal_strlit("Not Found");
    assert("Not Found"@.len() == 9 && "Not Found"@[0] == 'N' && "Not Found"@[7] == 'n');
    reveal_strlit("Method Not Allowed");
    assert("Method Not Allowed"@.len() == 18 && "Method Not Allowed"@[0] == 'M' && "Method Not Allowed"@[7] == 'N');
    reveal_strlit("Not Acceptable");
    assert("Not Acceptable"@.len() == 14 && "Not Acceptable"@[0] == 'N' && "Not Acceptable"@[7] == 'e');
    reveal_strlit("Proxy Authentication Required");
    assert("Proxy Authentication Required"@.len() == 29 && "Proxy Authentication Required"@[0] == 'P' && "Proxy Authentication Required"@[7] == 'u');
    reveal_strlit("Request Time-out");
    assert("Request Time-out"@.len() == 16 && "Request Time-out"@[0] == 'R' && "Request Time-out"@[7] == ' ');
    reveal_strlit("Conflict");
    assert("Conflict"@.len() == 8 && "Conflict"@[0] == 'C' && "Conflict"@[7] == 't');
    reveal_strlit("Gone");
    assert("Gone"@.len() == 4 && "Gone"@[0] == 'G');
    reveal_strlit("Length Required");
    assert("Length Required"@.len() == 15 && "Length Required"@[0] == 'L' && "Length Required"@[7] == 'R');
    reveal_strlit("Precondition Failed");
    assert("Precondition Failed"@.len() == 19 && "Precondition Failed"@[0] == 'P' && "Precondition Failed"@[7] == 'i');
    reveal_strlit("Request Entities Too Large");
    assert("Request Entities Too Large"@.len() == 26 && "Request Entities Too Large"@[0] == 'R' && "Request Entities Too Large"@[7] == ' ');
    reveal_strlit("Request-URI Too Large");
    assert("Request-URI Too Large"@.len() == 21 && "Request-URI Too Large"@[0] == 'R' && "Request-URI Too Large"@[7] == '-');
    reveal_strlit("Unsupported Media Type");
    assert("Unsupported Media Type"@.len() == 22 && "Unsupported Media Type"@[0] == 'U' && "Unsupported Media Type"@[7] == 'r');
    reveal_strlit("Requested range not satisfiable");
    assert("Requested range not satisfiable"@.len() == 31 && "Requested range not satisfiable"@[0] == 'R' && "Requested range not satisfiable"@[7] == 'e');
    reveal_strlit("Expectation Failed");
    assert("Expectation Failed"@.len() == 18 && "Expectation Failed"@[0] == 'E' && "Expectation Failed"@[7] == 't');
    reveal_strlit("I'm a teapot");
    assert("I'm a teapot"@.len() == 12 && "I'm a teapot"@[0] == 'I' && "I'm a teapot"@[7] == 'e');
    reveal_strlit("Unprocessable Entities");
    assert("Unprocessable Entities"@.len() == 22 && "Unprocessable Entities"@[0] == 'U' && "Unprocessable Entities"@[7] == 's');
    reveal_strlit("Locked");
    assert("Locked"@.len() == 6 && "Locked"@[0] == 'L');
    reveal_strlit("Failed Dependency");
    assert("Failed Dependency"@.len() == 17 && "Failed Dependency"@[0] == 'F' && "Failed Dependency"@[7] == 'D');
    reveal_strlit("Unordered Collection");
    assert("Unordered Collection"@.len() == 20 && "Unordered Collection"@[0] == 'U' && "Unordered Collection"@[7] == 'e');
    reveal_strlit("Upgrade Required");
    assert("Upgrade Required"@.len() == 16 && "Upgrade Required"@[0] == 'U' && "Upgrade Required"@[7] == ' ');
    reveal_strlit("Precondition Required");
    assert("Precondition Required"@.len() == 21 && "Precondition Required"@[0] == 'P' && "Precondition Required"@[7] == 'i');
    reveal_strlit("Too Many Requests");
    assert("Too Many Requests"@.len() == 17 && "Too Many Requests"@[0] == 'T' && "Too Many Requests"@[7] == 'y');
    reveal_strlit("Request Header Fields Too Large");
    assert("Request Header Fields Too Large"@.len() == 31 && "Request Header Fields Too Large"@[0] == 'R' && "Request Header Fields Too Large"@[7] == ' ');
    reveal_strlit("Unavailable For Legal Reasons");
    assert("Unavailable For Legal Reasons"@.len() == 29 && "Unavailable For Legal Reasons"@[0] == 'U' && "Unavailable For Legal Reasons"@[7] == 'a');
    reveal_strlit("Internal Server Error");
    assert("Internal Server Error"@.len() == 21 && "Internal Server Error"@[0] == 'I' && "Internal Server Error"@[7] == 'l');
    reveal_strlit("Not Implemented");
    assert("Not Implemented"@.len() == 15 && "Not Implemented"@[0] == 'N' && "Not Implemented"@[7] == 'l');
    reveal_strlit("Bad Gateway");
    assert("Bad Gateway"@.len() == 11 && "Bad Gateway"@[0] == 'B' && "Bad Gateway"@[7] == 'e');
    reveal_strlit("Service Unavailable");
    assert("Service Unavailable"@.len() == 19 && "Service Unavailable"@[0] == 'S' && "Service Unavailable"@[7] == ' ');
    reveal_strlit("Gateway Time-out");
    assert("Gateway Time-out"@.len() == 16 && "Gateway Time-out"@[0] == 'G' && "Gateway Time-out"@[7] == ' ');
    reveal_strlit("HTTP Version not supported");
    assert("HTTP Version not supported"@.len() == 26 && "HTTP Version not supported"@[0] == 'H' && "HTTP Version not supported"@[7] == 'r');
    reveal_strlit("Variant Also Negotiates");
    assert("Variant Also Negotiates"@.len() == 23 && "Variant Also Negotiates"@[0] == 'V' && "Variant Also Negotiates"@[7] == ' ');
    reveal_strlit("Insufficient Storage");
    assert("Insufficient Storage"@.len() == 20 && "Insufficient Storage"@[0] == 'I' && "Insufficient Storage"@[7] == 'c');
    reveal_strlit("Loop Detected");
    assert("Loop Detected"@.len() == 13 && "Loop Detected"@[0] == 'L' && "Loop Detected"@[7] == 't');
    reveal_strlit("Network Authentication Required");
    assert("Network Authentication Required"@.len() == 31 && "Network Authentication Required"@[0] == 'N' && "Network Authentication Required"@[7] == ' ');
}

} // verus!
