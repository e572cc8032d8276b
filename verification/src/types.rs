//! Common wire-level types: HTTP methods and the closed set of HTTP
//! statuses that responses may carry.
use vstd::prelude::*;
use crate::error::{Error, ErrorKind};
use crate::strutil::str_eq;

verus! {

/// The HTTP methods a procedure can be bound to.
#[derive(Debug, Clone, Copy, PartialEq, Eq, Hash, Structural)]
pub enum HttpMethod {
    /// The `GET` method.
    Get,
    /// The `HEAD` method.
    Head,
    /// The `POST` method.
    Post,
    /// The `PUT` method.
    Put,
    /// The `DELETE` method.
    Delete,
    /// The `CONNECT` method.
    Connect,
    /// The `OPTIONS` method.
    Options,
    /// The `TRACE` method.
    Trace,
    /// The `PATCH` method.
    Patch,
}

impl HttpMethod {
    /// The request-line token of this method.
    pub open spec fn spec_token(self) -> Seq<char> {
        match self {
            HttpMethod::Get => "GET"@,
            HttpMethod::Head => "HEAD"@,
            HttpMethod::Post => "POST"@,
            HttpMethod::Put => "PUT"@,
            HttpMethod::Delete => "DELETE"@,
            HttpMethod::Connect => "CONNECT"@,
            HttpMethod::Options => "OPTIONS"@,
            HttpMethod::Trace => "TRACE"@,
            HttpMethod::Patch => "PATCH"@,
        }
    }

    /// Writes the request-line token of this method.
    pub fn token(&self) -> (r: &'static str)
        ensures
            r@ == self.spec_token(),
    {
        match self {
            HttpMethod::Get => "GET",
            HttpMethod::Head => "HEAD",
            HttpMethod::Post => "POST",
            HttpMethod::Put => "PUT",
            HttpMethod::Delete => "DELETE",
            HttpMethod::Connect => "CONNECT",
            HttpMethod::Options => "OPTIONS",
            HttpMethod::Trace => "TRACE",
            HttpMethod::Patch => "PATCH",
        }
    }

    /// Reads a method from its request-line token.
    pub fn from_token(s: &str) -> (r: Result<HttpMethod, Error>)
        ensures
            ({
                match r {
                    Ok(m) => m.spec_token() == s@,
                    Err(e) => e.kind == ErrorKind::Invalid && forall|m: HttpMethod|
                        m.spec_token() != s@,
                }
            }),
    {
        if str_eq(s, "GET") {
            return Ok(HttpMethod::Get);
        }
        if str_eq(s, "HEAD") {
            return Ok(HttpMethod::Head);
        }
        if str_eq(s, "POST") {
            return Ok(HttpMethod::Post);
        }
        if str_eq(s, "PUT") {
            return Ok(HttpMethod::Put);
        }
        if str_eq(s, "DELETE") {
            return Ok(HttpMethod::Delete);
        }
        if str_eq(s, "CONNECT") {
            return Ok(HttpMethod::Connect);
        }
        if str_eq(s, "OPTIONS") {
            return Ok(HttpMethod::Options);
        }
        if str_eq(s, "TRACE") {
            return Ok(HttpMethod::Trace);
        }
        if str_eq(s, "PATCH") {
            return Ok(HttpMethod::Patch);
        }
        proof {
            assert forall|m: HttpMethod| m.spec_token() != s@ by {
                match m {
                    HttpMethod::Get => {},
                    HttpMethod::Head => {},
                    HttpMethod::Post => {},
                    HttpMethod::Put => {},
                    HttpMethod::Delete => {},
                    HttpMethod::Connect => {},
                    HttpMethod::Options => {},
                    HttpMethod::Trace => {},
                    HttpMethod::Patch => {},
                }
            }
        }
        Err(Error::invalid())
    }
}

/// The closed set of response outcomes, one per recognized HTTP status
/// code.
#[derive(Debug, Clone, Copy, PartialEq, Eq, Hash, Structural)]
pub enum HttpStatus {
    /// `100 Continue`.
    Continue,
    /// `101 Switching Protocols`.
    SwitchingProtocols,
    /// `102 Processing`.
    Processing,
    /// `200 OK`.
    Okay,
    /// `201 Created`.
    Created,
    /// `202 Accepted`.
    Accepted,
    /// `203 Non-Authoritative Information`.
    NonAuthoritativeInformation,
    /// `204 No Content`.
    NoContent,
    /// `205 Reset Content`.
    ResetContent,
    /// `206 Partial Content`.
    PartialContent,
    /// `207 Multi-Status`.
    MultiStatus,
    /// `208 Already Reported`.
    AlreadyReported,
    /// `226 IM Used`.
    ImUsed,
    /// `300 Multiple Choices`.
    MultipleChoices,
    /// `301 Moved Permanently`.
    MovedPermanently,
    /// `302 Found`.
    Found,
    /// `303 See Other`.
    SeeOther,
    /// `304 Not Modified`.
    NotModified,
    /// `305 Use Proxy`.
    UseProxy,
    /// `307 Temporary Redirect`.
    TemporaryRedirect,
    /// `308 Permanent Redirect`.
    PermanentRedirect,
    /// `400 Bad Request`.
    BadRequest,
    /// `401 Unauthorized`.
    Unauthorized,
    /// `402 Payment Required`.
    PaymentRequired,
    /// `403 Forbidden`.
    Forbidden,
    /// `404 Not Found`.
    NotFound,
    /// `405 Method Not Allowed`.
    MethodNotAllowed,
    /// `406 Not Acceptable`.
    NotAcceptable,
    /// `407 Proxy Authentication Required`.
    ProxyAuthenticationRequired,
    /// `408 Request Timeout`.
    RequestTimeout,
    /// `409 Conflict`.
    Conflict,
    /// `410 Gone`.
    Gone,
    /// `411 Length Required`.
    LengthRequired,
    /// `412 Precondition Failed`.
    PreconditionFailed,
    /// `413 Payload Too Large`.
    PayloadTooLarge,
    /// `414 URI Too Long`.
    UriTooLong,
    /// `415 Unsupported Media Type`.
    UnsupportedMediaType,
    /// `416 Range Not Satisfiable`.
    RangeNotSatisfiable,
    /// `417 Expectation Failed`.
    ExceptionFailed,
    /// `418 I'm a teapot`.
    ImATeapot,
    /// `421 Misdirected Request`.
    MisdirectedRequest,
    /// `422 Unprocessable Entity`.
    UnprocessableEntity,
    /// `423 Locked`.
    Locked,
    /// `424 Failed Dependency`.
    FailedDependency,
    /// `426 Upgrade Required`.
    UpgradeRequired,
    /// `451 Unavailable For Legal Reasons`.
    UnavailableForLegalReasons,
    /// `500 Internal Server Error`.
    InternalServerError,
    /// `501 Not Implemented`.
    NotImplemented,
    /// `502 Bad Gateway`.
    BadGateway,
    /// `503 Service Unavailable`.
    ServiceUnavailable,
    /// `504 Gateway Timeout`.
    GatewayTimeout,
    /// `505 HTTP Version Not Supported`.
    HttpVersionNotSupported,
    /// `506 Variant Also Negotiates`.
    VariantAlsoNegotiates,
    /// `507 Insufficient Storage`.
    InsufficientStorage,
    /// `508 Loop Detected`.
    LoopDetected,
    /// `509 Bandwidth Limit Exceeded`.
    BandwidthLimitExceeded,
    /// `510 Not Extended`.
    NotExtended,
}

impl HttpStatus {
    /// The status code of this outcome.
    pub open spec fn spec_code(self) -> u16 {
        match self {
            HttpStatus::Continue => 100,
            HttpStatus::SwitchingProtocols => 101,
            HttpStatus::Processing => 102,
            HttpStatus::Okay => 200,
            HttpStatus::Created => 201,
            HttpStatus::Accepted => 202,
            HttpStatus::NonAuthoritativeInformation => 203,
            HttpStatus::NoContent => 204,
            HttpStatus::ResetContent => 205,
            HttpStatus::PartialContent => 206,
            HttpStatus::MultiStatus => 207,
            HttpStatus::AlreadyReported => 208,
            HttpStatus::ImUsed => 226,
            HttpStatus::MultipleChoices => 300,
            HttpStatus::MovedPermanently => 301,
            HttpStatus::Found => 302,
            HttpStatus::SeeOther => 303,
            HttpStatus::NotModified => 304,
            HttpStatus::UseProxy => 305,
            HttpStatus::TemporaryRedirect => 307,
            HttpStatus::PermanentRedirect => 308,
            HttpStatus::BadRequest => 400,
            HttpStatus::Unauthorized => 401,
            HttpStatus::PaymentRequired => 402,
            HttpStatus::Forbidden => 403,
            HttpStatus::NotFound => 404,
            HttpStatus::MethodNotAllowed => 405,
            HttpStatus::NotAcceptable => 406,
            HttpStatus::ProxyAuthenticationRequired => 407,
            HttpStatus::RequestTimeout => 408,
            HttpStatus::Conflict => 409,
            HttpStatus::Gone => 410,
            HttpStatus::LengthRequired => 411,
            HttpStatus::PreconditionFailed => 412,
            HttpStatus::PayloadTooLarge => 413,
            HttpStatus::UriTooLong => 414,
            HttpStatus::UnsupportedMediaType => 415,
            HttpStatus::RangeNotSatisfiable => 416,
            HttpStatus::ExceptionFailed => 417,
            HttpStatus::ImATeapot => 418,
            HttpStatus::MisdirectedRequest => 421,
            HttpStatus::UnprocessableEntity => 422,
            HttpStatus::Locked => 423,
            HttpStatus::FailedDependency => 424,
            HttpStatus::UpgradeRequired => 426,
            HttpStatus::UnavailableForLegalReasons => 451,
            HttpStatus::InternalServerError => 500,
            HttpStatus::NotImplemented => 501,
            HttpStatus::BadGateway => 502,
            HttpStatus::ServiceUnavailable => 503,
            HttpStatus::GatewayTimeout => 504,
            HttpStatus::HttpVersionNotSupported => 505,
            HttpStatus::VariantAlsoNegotiates => 506,
            HttpStatus::InsufficientStorage => 507,
            HttpStatus::LoopDetected => 508,
            HttpStatus::BandwidthLimitExceeded => 509,
            HttpStatus::NotExtended => 510,
        }
    }

    /// The canonical reason phrase of this outcome.
    pub open spec fn spec_reason(self) -> Seq<char> {
        match self {
            HttpStatus::Continue => "Continue"@,
            HttpStatus::SwitchingProtocols => "Switching Protocols"@,
            HttpStatus::Processing => "Processing"@,
            HttpStatus::Okay => "OK"@,
            HttpStatus::Created => "Created"@,
            HttpStatus::Accepted => "Accepted"@,
            HttpStatus::NonAuthoritativeInformation => "Non-Authoritative Information"@,
            HttpStatus::NoContent => "No Content"@,
            HttpStatus::ResetContent => "Reset Content"@,
            HttpStatus::PartialContent => "Partial Content"@,
            HttpStatus::MultiStatus => "Multi-Status"@,
            HttpStatus::AlreadyReported => "Already Reported"@,
            HttpStatus::ImUsed => "IM Used"@,
            HttpStatus::MultipleChoices => "Multiple Choices"@,
            HttpStatus::MovedPermanently => "Moved Permanently"@,
            HttpStatus::Found => "Found"@,
            HttpStatus::SeeOther => "See Other"@,
            HttpStatus::NotModified => "Not Modified"@,
            HttpStatus::UseProxy => "Use Proxy"@,
            HttpStatus::TemporaryRedirect => "Temporary Redirect"@,
            HttpStatus::PermanentRedirect => "Permanent Redirect"@,
            HttpStatus::BadRequest => "Bad Request"@,
            HttpStatus::Unauthorized => "Unauthorized"@,
            HttpStatus::PaymentRequired => "Payment Required"@,
            HttpStatus::Forbidden => "Forbidden"@,
            HttpStatus::NotFound => "Not Found"@,
            HttpStatus::MethodNotAllowed => "Method Not Allowed"@,
            HttpStatus::NotAcceptable => "Not Acceptable"@,
            HttpStatus::ProxyAuthenticationRequired => "Proxy Authentication Required"@,
            HttpStatus::RequestTimeout => "Request Timeout"@,
            HttpStatus::Conflict => "Conflict"@,
            HttpStatus::Gone => "Gone"@,
            HttpStatus::LengthRequired => "Length Required"@,
            HttpStatus::PreconditionFailed => "Precondition Failed"@,
            HttpStatus::PayloadTooLarge => "Payload Too Large"@,
            HttpStatus::UriTooLong => "URI Too Long"@,
            HttpStatus::UnsupportedMediaType => "Unsupported Media Type"@,
            HttpStatus::RangeNotSatisfiable => "Range Not Satisfiable"@,
            HttpStatus::ExceptionFailed => "Expectation Failed"@,
            HttpStatus::ImATeapot => "I'm a teapot"@,
            HttpStatus::MisdirectedRequest => "Misdirected Request"@,
            HttpStatus::UnprocessableEntity => "Unprocessable Entity"@,
            HttpStatus::Locked => "Locked"@,
            HttpStatus::FailedDependency => "Failed Dependency"@,
            HttpStatus::UpgradeRequired => "Upgrade Required"@,
            HttpStatus::UnavailableForLegalReasons => "Unavailable For Legal Reasons"@,
            HttpStatus::InternalServerError => "Internal Server Error"@,
            HttpStatus::NotImplemented => "Not Implemented"@,
            HttpStatus::BadGateway => "Bad Gateway"@,
            HttpStatus::ServiceUnavailable => "Service Unavailable"@,
            HttpStatus::GatewayTimeout => "Gateway Timeout"@,
            HttpStatus::HttpVersionNotSupported => "HTTP Version Not Supported"@,
            HttpStatus::VariantAlsoNegotiates => "Variant Also Negotiates"@,
            HttpStatus::InsufficientStorage => "Insufficient Storage"@,
            HttpStatus::LoopDetected => "Loop Detected"@,
            HttpStatus::BandwidthLimitExceeded => "Bandwidth Limit Exceeded"@,
            HttpStatus::NotExtended => "Not Extended"@,
        }
    }

    /// The outcome for a status code, if the code is in the table.
    pub open spec fn spec_from_code(code: u16) -> Option<HttpStatus> {
        match code {
            100u16 => Some(HttpStatus::Continue),
            101u16 => Some(HttpStatus::SwitchingProtocols),
            102u16 => Some(HttpStatus::Processing),
            200u16 => Some(HttpStatus::Okay),
            201u16 => Some(HttpStatus::Created),
            202u16 => Some(HttpStatus::Accepted),
            203u16 => Some(HttpStatus::NonAuthoritativeInformation),
            204u16 => Some(HttpStatus::NoContent),
            205u16 => Some(HttpStatus::ResetContent),
            206u16 => Some(HttpStatus::PartialContent),
            207u16 => Some(HttpStatus::MultiStatus),
            208u16 => Some(HttpStatus::AlreadyReported),
            226u16 => Some(HttpStatus::ImUsed),
            300u16 => Some(HttpStatus::MultipleChoices),
            301u16 => Some(HttpStatus::MovedPermanently),
            302u16 => Some(HttpStatus::Found),
            303u16 => Some(HttpStatus::SeeOther),
            304u16 => Some(HttpStatus::NotModified),
            305u16 => Some(HttpStatus::UseProxy),
            307u16 => Some(HttpStatus::TemporaryRedirect),
            308u16 => Some(HttpStatus::PermanentRedirect),
            400u16 => Some(HttpStatus::BadRequest),
            401u16 => Some(HttpStatus::Unauthorized),
            402u16 => Some(HttpStatus::PaymentRequired),
            403u16 => Some(HttpStatus::Forbidden),
            404u16 => Some(HttpStatus::NotFound),
            405u16 => Some(HttpStatus::MethodNotAllowed),
            406u16 => Some(HttpStatus::NotAcceptable),
            407u16 => Some(HttpStatus::ProxyAuthenticationRequired),
            408u16 => Some(HttpStatus::RequestTimeout),
            409u16 => Some(HttpStatus::Conflict),
            410u16 => Some(HttpStatus::Gone),
            411u16 => Some(HttpStatus::LengthRequired),
            412u16 => Some(HttpStatus::PreconditionFailed),
            413u16 => Some(HttpStatus::PayloadTooLarge),
            414u16 => Some(HttpStatus::UriTooLong),
            415u16 => Some(HttpStatus::UnsupportedMediaType),
            416u16 => Some(HttpStatus::RangeNotSatisfiable),
            417u16 => Some(HttpStatus::ExceptionFailed),
            418u16 => Some(HttpStatus::ImATeapot),
            421u16 => Some(HttpStatus::MisdirectedRequest),
            422u16 => Some(HttpStatus::UnprocessableEntity),
            423u16 => Some(HttpStatus::Locked),
            424u16 => Some(HttpStatus::FailedDependency),
            426u16 => Some(HttpStatus::UpgradeRequired),
            451u16 => Some(HttpStatus::UnavailableForLegalReasons),
            500u16 => Some(HttpStatus::InternalServerError),
            501u16 => Some(HttpStatus::NotImplemented),
            502u16 => Some(HttpStatus::BadGateway),
            503u16 => Some(HttpStatus::ServiceUnavailable),
            504u16 => Some(HttpStatus::GatewayTimeout),
            505u16 => Some(HttpStatus::HttpVersionNotSupported),
            506u16 => Some(HttpStatus::VariantAlsoNegotiates),
            507u16 => Some(HttpStatus::InsufficientStorage),
            508u16 => Some(HttpStatus::LoopDetected),
            509u16 => Some(HttpStatus::BandwidthLimitExceeded),
            510u16 => Some(HttpStatus::NotExtended),
            _ => None,
        }
    }

    /// Returns the status code of this outcome.
    pub fn code(&self) -> (r: u16)
        ensures
            r == self.spec_code(),
    {
        match self {
            HttpStatus::Continue => 100,
            HttpStatus::SwitchingProtocols => 101,
            HttpStatus::Processing => 102,
            HttpStatus::Okay => 200,
            HttpStatus::Created => 201,
            HttpStatus::Accepted => 202,
            HttpStatus::NonAuthoritativeInformation => 203,
            HttpStatus::NoContent => 204,
            HttpStatus::ResetContent => 205,
            HttpStatus::PartialContent => 206,
            HttpStatus::MultiStatus => 207,
            HttpStatus::AlreadyReported => 208,
            HttpStatus::ImUsed => 226,
            HttpStatus::MultipleChoices => 300,
            HttpStatus::MovedPermanently => 301,
            HttpStatus::Found => 302,
            HttpStatus::SeeOther => 303,
            HttpStatus::NotModified => 304,
            HttpStatus::UseProxy => 305,
            HttpStatus::TemporaryRedirect => 307,
            HttpStatus::PermanentRedirect => 308,
            HttpStatus::BadRequest => 400,
            HttpStatus::Unauthorized => 401,
            HttpStatus::PaymentRequired => 402,
            HttpStatus::Forbidden => 403,
            HttpStatus::NotFound => 404,
            HttpStatus::MethodNotAllowed => 405,
            HttpStatus::NotAcceptable => 406,
            HttpStatus::ProxyAuthenticationRequired => 407,
            HttpStatus::RequestTimeout => 408,
            HttpStatus::Conflict => 409,
            HttpStatus::Gone => 410,
            HttpStatus::LengthRequired => 411,
            HttpStatus::PreconditionFailed => 412,
            HttpStatus::PayloadTooLarge => 413,
            HttpStatus::UriTooLong => 414,
            HttpStatus::UnsupportedMediaType => 415,
            HttpStatus::RangeNotSatisfiable => 416,
            HttpStatus::ExceptionFailed => 417,
            HttpStatus::ImATeapot => 418,
            HttpStatus::MisdirectedRequest => 421,
            HttpStatus::UnprocessableEntity => 422,
            HttpStatus::Locked => 423,
            HttpStatus::FailedDependency => 424,
            HttpStatus::UpgradeRequired => 426,
            HttpStatus::UnavailableForLegalReasons => 451,
            HttpStatus::InternalServerError => 500,
            HttpStatus::NotImplemented => 501,
            HttpStatus::BadGateway => 502,
            HttpStatus::ServiceUnavailable => 503,
            HttpStatus::GatewayTimeout => 504,
            HttpStatus::HttpVersionNotSupported => 505,
            HttpStatus::VariantAlsoNegotiates => 506,
            HttpStatus::InsufficientStorage => 507,
            HttpStatus::LoopDetected => 508,
            HttpStatus::BandwidthLimitExceeded => 509,
            HttpStatus::NotExtended => 510,
        }
    }

    /// Returns the canonical reason phrase of this outcome.
    pub fn reason_phrase(&self) -> (r: &'static str)
        ensures
            r@ == self.spec_reason(),
    {
        match self {
            HttpStatus::Continue => "Continue",
            HttpStatus::SwitchingProtocols => "Switching Protocols",
            HttpStatus::Processing => "Processing",
            HttpStatus::Okay => "OK",
            HttpStatus::Created => "Created",
            HttpStatus::Accepted => "Accepted",
            HttpStatus::NonAuthoritativeInformation => "Non-Authoritative Information",
            HttpStatus::NoContent => "No Content",
            HttpStatus::ResetContent => "Reset Content",
            HttpStatus::PartialContent => "Partial Content",
            HttpStatus::MultiStatus => "Multi-Status",
            HttpStatus::AlreadyReported => "Already Reported",
            HttpStatus::ImUsed => "IM Used",
            HttpStatus::MultipleChoices => "Multiple Choices",
            HttpStatus::MovedPermanently => "Moved Permanently",
            HttpStatus::Found => "Found",
            HttpStatus::SeeOther => "See Other",
            HttpStatus::NotModified => "Not Modified",
            HttpStatus::UseProxy => "Use Proxy",
            HttpStatus::TemporaryRedirect => "Temporary Redirect",
            HttpStatus::PermanentRedirect => "Permanent Redirect",
            HttpStatus::BadRequest => "Bad Request",
            HttpStatus::Unauthorized => "Unauthorized",
            HttpStatus::PaymentRequired => "Payment Required",
            HttpStatus::Forbidden => "Forbidden",
            HttpStatus::NotFound => "Not Found",
            HttpStatus::MethodNotAllowed => "Method Not Allowed",
            HttpStatus::NotAcceptable => "Not Acceptable",
            HttpStatus::ProxyAuthenticationRequired => "Proxy Authentication Required",
            HttpStatus::RequestTimeout => "Request Timeout",
            HttpStatus::Conflict => "Conflict",
            HttpStatus::Gone => "Gone",
            HttpStatus::LengthRequired => "Length Required",
            HttpStatus::PreconditionFailed => "Precondition Failed",
            HttpStatus::PayloadTooLarge => "Payload Too Large",
            HttpStatus::UriTooLong => "URI Too Long",
            HttpStatus::UnsupportedMediaType => "Unsupported Media Type",
            HttpStatus::RangeNotSatisfiable => "Range Not Satisfiable",
            HttpStatus::ExceptionFailed => "Expectation Failed",
            HttpStatus::ImATeapot => "I'm a teapot",
            HttpStatus::MisdirectedRequest => "Misdirected Request",
            HttpStatus::UnprocessableEntity => "Unprocessable Entity",
            HttpStatus::Locked => "Locked",
            HttpStatus::FailedDependency => "Failed Dependency",
            HttpStatus::UpgradeRequired => "Upgrade Required",
            HttpStatus::UnavailableForLegalReasons => "Unavailable For Legal Reasons",
            HttpStatus::InternalServerError => "Internal Server Error",
            HttpStatus::NotImplemented => "Not Implemented",
            HttpStatus::BadGateway => "Bad Gateway",
            HttpStatus::ServiceUnavailable => "Service Unavailable",
            HttpStatus::GatewayTimeout => "Gateway Timeout",
            HttpStatus::HttpVersionNotSupported => "HTTP Version Not Supported",
            HttpStatus::VariantAlsoNegotiates => "Variant Also Negotiates",
            HttpStatus::InsufficientStorage => "Insufficient Storage",
            HttpStatus::LoopDetected => "Loop Detected",
            HttpStatus::BandwidthLimitExceeded => "Bandwidth Limit Exceeded",
            HttpStatus::NotExtended => "Not Extended",
        }
    }

    /// Reads an outcome back from a status code; any code outside the table
    /// is invalid.
    pub fn from_code(code: u16) -> (r: Result<HttpStatus, Error>)
        ensures
            ({
                match r {
                    Ok(v) => HttpStatus::spec_from_code(code) == Some(v),
                    Err(e) => e.kind == ErrorKind::Invalid && HttpStatus::spec_from_code(code)
                        is None,
                }
            }),
    {
        match code {
            100u16 => Ok(HttpStatus::Continue),
            101u16 => Ok(HttpStatus::SwitchingProtocols),
            102u16 => Ok(HttpStatus::Processing),
            200u16 => Ok(HttpStatus::Okay),
            201u16 => Ok(HttpStatus::Created),
            202u16 => Ok(HttpStatus::Accepted),
            203u16 => Ok(HttpStatus::NonAuthoritativeInformation),
            204u16 => Ok(HttpStatus::NoContent),
            205u16 => Ok(HttpStatus::ResetContent),
            206u16 => Ok(HttpStatus::PartialContent),
            207u16 => Ok(HttpStatus::MultiStatus),
            208u16 => Ok(HttpStatus::AlreadyReported),
            226u16 => Ok(HttpStatus::ImUsed),
            300u16 => Ok(HttpStatus::MultipleChoices),
            301u16 => Ok(HttpStatus::MovedPermanently),
            302u16 => Ok(HttpStatus::Found),
            303u16 => Ok(HttpStatus::SeeOther),
            304u16 => Ok(HttpStatus::NotModified),
            305u16 => Ok(HttpStatus::UseProxy),
            307u16 => Ok(HttpStatus::TemporaryRedirect),
            308u16 => Ok(HttpStatus::PermanentRedirect),
            400u16 => Ok(HttpStatus::BadRequest),
            401u16 => Ok(HttpStatus::Unauthorized),
            402u16 => Ok(HttpStatus::PaymentRequired),
            403u16 => Ok(HttpStatus::Forbidden),
            404u16 => Ok(HttpStatus::NotFound),
            405u16 => Ok(HttpStatus::MethodNotAllowed),
            406u16 => Ok(HttpStatus::NotAcceptable),
            407u16 => Ok(HttpStatus::ProxyAuthenticationRequired),
            408u16 => Ok(HttpStatus::RequestTimeout),
            409u16 => Ok(HttpStatus::Conflict),
            410u16 => Ok(HttpStatus::Gone),
            411u16 => Ok(HttpStatus::LengthRequired),
            412u16 => Ok(HttpStatus::PreconditionFailed),
            413u16 => Ok(HttpStatus::PayloadTooLarge),
            414u16 => Ok(HttpStatus::UriTooLong),
            415u16 => Ok(HttpStatus::UnsupportedMediaType),
            416u16 => Ok(HttpStatus::RangeNotSatisfiable),
            417u16 => Ok(HttpStatus::ExceptionFailed),
            418u16 => Ok(HttpStatus::ImATeapot),
            421u16 => Ok(HttpStatus::MisdirectedRequest),
            422u16 => Ok(HttpStatus::UnprocessableEntity),
            423u16 => Ok(HttpStatus::Locked),
            424u16 => Ok(HttpStatus::FailedDependency),
            426u16 => Ok(HttpStatus::UpgradeRequired),
            451u16 => Ok(HttpStatus::UnavailableForLegalReasons),
            500u16 => Ok(HttpStatus::InternalServerError),
            501u16 => Ok(HttpStatus::NotImplemented),
            502u16 => Ok(HttpStatus::BadGateway),
            503u16 => Ok(HttpStatus::ServiceUnavailable),
            504u16 => Ok(HttpStatus::GatewayTimeout),
            505u16 => Ok(HttpStatus::HttpVersionNotSupported),
            506u16 => Ok(HttpStatus::VariantAlsoNegotiates),
            507u16 => Ok(HttpStatus::InsufficientStorage),
            508u16 => Ok(HttpStatus::LoopDetected),
            509u16 => Ok(HttpStatus::BandwidthLimitExceeded),
            510u16 => Ok(HttpStatus::NotExtended),
            _ => Err(Error::invalid()),
        }
    }
}

/// Every outcome's code reads back as that same outcome.
pub proof fn lemma_status_code_round_trip(s: HttpStatus)
    ensures
        HttpStatus::spec_from_code(s.spec_code()) == Some(s),
{
}

} // verus!

verus! {

impl HttpStatus {
    /// The name of this outcome, as status fields write and read it.
    pub open spec fn spec_name(self) -> Seq<char> {
        match self {
            HttpStatus::Continue => "Continue"@,
            HttpStatus::SwitchingProtocols => "SwitchingProtocols"@,
            HttpStatus::Processing => "Processing"@,
            HttpStatus::Okay => "Ok"@,
            HttpStatus::Created => "Created"@,
            HttpStatus::Accepted => "Accepted"@,
            HttpStatus::NonAuthoritativeInformation => "NonAuthoritativeInformation"@,
            HttpStatus::NoContent => "NoContent"@,
            HttpStatus::ResetContent => "ResetContent"@,
            HttpStatus::PartialContent => "PartialContent"@,
            HttpStatus::MultiStatus => "MultiStatus"@,
            HttpStatus::AlreadyReported => "AlreadyReported"@,
            HttpStatus::ImUsed => "ImUsed"@,
            HttpStatus::MultipleChoices => "MultipleChoices"@,
            HttpStatus::MovedPermanently => "MovedPermanently"@,
            HttpStatus::Found => "Found"@,
            HttpStatus::SeeOther => "SeeOther"@,
            HttpStatus::NotModified => "NotModified"@,
            HttpStatus::UseProxy => "UseProxy"@,
            HttpStatus::TemporaryRedirect => "TemporaryRedirect"@,
            HttpStatus::PermanentRedirect => "PermanentRedirect"@,
            HttpStatus::BadRequest => "BadRequest"@,
            HttpStatus::Unauthorized => "Unauthorized"@,
            HttpStatus::PaymentRequired => "PaymentRequired"@,
            HttpStatus::Forbidden => "Forbidden"@,
            HttpStatus::NotFound => "NotFound"@,
            HttpStatus::MethodNotAllowed => "MethodNotAllowed"@,
            HttpStatus::NotAcceptable => "NotAcceptable"@,
            HttpStatus::ProxyAuthenticationRequired => "ProxyAuthenticationRequired"@,
            HttpStatus::RequestTimeout => "RequestTimeout"@,
            HttpStatus::Conflict => "Conflict"@,
            HttpStatus::Gone => "Gone"@,
            HttpStatus::LengthRequired => "LengthRequired"@,
            HttpStatus::PreconditionFailed => "PreconditionFailed"@,
            HttpStatus::PayloadTooLarge => "PayloadTooLarge"@,
            HttpStatus::UriTooLong => "UriTooLong"@,
            HttpStatus::UnsupportedMediaType => "UnsupportedMediaType"@,
            HttpStatus::RangeNotSatisfiable => "RangeNotSatisfiable"@,
            HttpStatus::ExceptionFailed => "ExceptionFailed"@,
            HttpStatus::ImATeapot => "ImATeapot"@,
            HttpStatus::MisdirectedRequest => "MisdirectedRequest"@,
            HttpStatus::UnprocessableEntity => "UnprocessableEntity"@,
            HttpStatus::Locked => "Locked"@,
            HttpStatus::FailedDependency => "FailedDependency"@,
            HttpStatus::UpgradeRequired => "UpgradeRequired"@,
            HttpStatus::UnavailableForLegalReasons => "UnavailableForLegalReasons"@,
            HttpStatus::InternalServerError => "InternalServerError"@,
            HttpStatus::NotImplemented => "NotImplemented"@,
            HttpStatus::BadGateway => "BadGateway"@,
            HttpStatus::ServiceUnavailable => "ServiceUnavailable"@,
            HttpStatus::GatewayTimeout => "GatewayTimeout"@,
            HttpStatus::HttpVersionNotSupported => "HttpVersionNotSupported"@,
            HttpStatus::VariantAlsoNegotiates => "VariantAlsoNegotiates"@,
            HttpStatus::InsufficientStorage => "InsufficientStorage"@,
            HttpStatus::LoopDetected => "LoopDetected"@,
            HttpStatus::BandwidthLimitExceeded => "BandwidthLimitExceeded"@,
            HttpStatus::NotExtended => "NotExtended"@,
        }
    }

    /// Returns the name of this outcome.
    pub fn name(&self) -> (r: &'static str)
        ensures
            r@ == self.spec_name(),
    {
        match self {
            HttpStatus::Continue => "Continue",
            HttpStatus::SwitchingProtocols => "SwitchingProtocols",
            HttpStatus::Processing => "Processing",
            HttpStatus::Okay => "Ok",
            HttpStatus::Created => "Created",
            HttpStatus::Accepted => "Accepted",
            HttpStatus::NonAuthoritativeInformation => "NonAuthoritativeInformation",
            HttpStatus::NoContent => "NoContent",
            HttpStatus::ResetContent => "ResetContent",
            HttpStatus::PartialContent => "PartialContent",
            HttpStatus::MultiStatus => "MultiStatus",
            HttpStatus::AlreadyReported => "AlreadyReported",
            HttpStatus::ImUsed => "ImUsed",
            HttpStatus::MultipleChoices => "MultipleChoices",
            HttpStatus::MovedPermanently => "MovedPermanently",
            HttpStatus::Found => "Found",
            HttpStatus::SeeOther => "SeeOther",
            HttpStatus::NotModified => "NotModified",
            HttpStatus::UseProxy => "UseProxy",
            HttpStatus::TemporaryRedirect => "TemporaryRedirect",
            HttpStatus::PermanentRedirect => "PermanentRedirect",
            HttpStatus::BadRequest => "BadRequest",
            HttpStatus::Unauthorized => "Unauthorized",
            HttpStatus::PaymentRequired => "PaymentRequired",
            HttpStatus::Forbidden => "Forbidden",
            HttpStatus::NotFound => "NotFound",
            HttpStatus::MethodNotAllowed => "MethodNotAllowed",
            HttpStatus::NotAcceptable => "NotAcceptable",
            HttpStatus::ProxyAuthenticationRequired => "ProxyAuthenticationRequired",
            HttpStatus::RequestTimeout => "RequestTimeout",
            HttpStatus::Conflict => "Conflict",
            HttpStatus::Gone => "Gone",
            HttpStatus::LengthRequired => "LengthRequired",
            HttpStatus::PreconditionFailed => "PreconditionFailed",
            HttpStatus::PayloadTooLarge => "PayloadTooLarge",
            HttpStatus::UriTooLong => "UriTooLong",
            HttpStatus::UnsupportedMediaType => "UnsupportedMediaType",
            HttpStatus::RangeNotSatisfiable => "RangeNotSatisfiable",
            HttpStatus::ExceptionFailed => "ExceptionFailed",
            HttpStatus::ImATeapot => "ImATeapot",
            HttpStatus::MisdirectedRequest => "MisdirectedRequest",
            HttpStatus::UnprocessableEntity => "UnprocessableEntity",
            HttpStatus::Locked => "Locked",
            HttpStatus::FailedDependency => "FailedDependency",
            HttpStatus::UpgradeRequired => "UpgradeRequired",
            HttpStatus::UnavailableForLegalReasons => "UnavailableForLegalReasons",
            HttpStatus::InternalServerError => "InternalServerError",
            HttpStatus::NotImplemented => "NotImplemented",
            HttpStatus::BadGateway => "BadGateway",
            HttpStatus::ServiceUnavailable => "ServiceUnavailable",
            HttpStatus::GatewayTimeout => "GatewayTimeout",
            HttpStatus::HttpVersionNotSupported => "HttpVersionNotSupported",
            HttpStatus::VariantAlsoNegotiates => "VariantAlsoNegotiates",
            HttpStatus::InsufficientStorage => "InsufficientStorage",
            HttpStatus::LoopDetected => "LoopDetected",
            HttpStatus::BandwidthLimitExceeded => "BandwidthLimitExceeded",
            HttpStatus::NotExtended => "NotExtended",
        }
    }

    /// Reads an outcome from its name; any name outside the table is
    /// invalid.
    pub fn from_name(s: &str) -> (r: Result<HttpStatus, Error>)
        ensures
            ({
                match r {
                    Ok(v) => v.spec_name() == s@,
                    Err(e) => e.kind == ErrorKind::Invalid && forall|v: HttpStatus|
                        v.spec_name() != s@,
                }
            }),
    {
        if str_eq(s, "Continue") {
            return Ok(HttpStatus::Continue);
        }
        if str_eq(s, "SwitchingProtocols") {
            return Ok(HttpStatus::SwitchingProtocols);
        }
        if str_eq(s, "Processing") {
            return Ok(HttpStatus::Processing);
        }
        if str_eq(s, "Ok") {
            return Ok(HttpStatus::Okay);
        }
        if str_eq(s, "Created") {
            return Ok(HttpStatus::Created);
        }
        if str_eq(s, "Accepted") {
            return Ok(HttpStatus::Accepted);
        }
        if str_eq(s, "NonAuthoritativeInformation") {
            return Ok(HttpStatus::NonAuthoritativeInformation);
        }
        if str_eq(s, "NoContent") {
            return Ok(HttpStatus::NoContent);
        }
        if str_eq(s, "ResetContent") {
            return Ok(HttpStatus::ResetContent);
        }
        if str_eq(s, "PartialContent") {
            return Ok(HttpStatus::PartialContent);
        }
        if str_eq(s, "MultiStatus") {
            return Ok(HttpStatus::MultiStatus);
        }
        if str_eq(s, "AlreadyReported") {
            return Ok(HttpStatus::AlreadyReported);
        }
        if str_eq(s, "ImUsed") {
            return Ok(HttpStatus::ImUsed);
        }
        if str_eq(s, "MultipleChoices") {
            return Ok(HttpStatus::MultipleChoices);
        }
        if str_eq(s, "MovedPermanently") {
            return Ok(HttpStatus::MovedPermanently);
        }
        if str_eq(s, "Found") {
            return Ok(HttpStatus::Found);
        }
        if str_eq(s, "SeeOther") {
            return Ok(HttpStatus::SeeOther);
        }
        if str_eq(s, "NotModified") {
            return Ok(HttpStatus::NotModified);
        }
        if str_eq(s, "UseProxy") {
            return Ok(HttpStatus::UseProxy);
        }
        if str_eq(s, "TemporaryRedirect") {
            return Ok(HttpStatus::TemporaryRedirect);
        }
        if str_eq(s, "PermanentRedirect") {
            return Ok(HttpStatus::PermanentRedirect);
        }
        if str_eq(s, "BadRequest") {
            return Ok(HttpStatus::BadRequest);
        }
        if str_eq(s, "Unauthorized") {
            return Ok(HttpStatus::Unauthorized);
        }
        if str_eq(s, "PaymentRequired") {
            return Ok(HttpStatus::PaymentRequired);
        }
        if str_eq(s, "Forbidden") {
            return Ok(HttpStatus::Forbidden);
        }
        if str_eq(s, "NotFound") {
            return Ok(HttpStatus::NotFound);
        }
        if str_eq(s, "MethodNotAllowed") {
            return Ok(HttpStatus::MethodNotAllowed);
        }
        if str_eq(s, "NotAcceptable") {
            return Ok(HttpStatus::NotAcceptable);
        }
        if str_eq(s, "ProxyAuthenticationRequired") {
            return Ok(HttpStatus::ProxyAuthenticationRequired);
        }
        if str_eq(s, "RequestTimeout") {
            return Ok(HttpStatus::RequestTimeout);
        }
        if str_eq(s, "Conflict") {
            return Ok(HttpStatus::Conflict);
        }
        if str_eq(s, "Gone") {
            return Ok(HttpStatus::Gone);
        }
        if str_eq(s, "LengthRequired") {
            return Ok(HttpStatus::LengthRequired);
        }
        if str_eq(s, "PreconditionFailed") {
            return Ok(HttpStatus::PreconditionFailed);
        }
        if str_eq(s, "PayloadTooLarge") {
            return Ok(HttpStatus::PayloadTooLarge);
        }
        if str_eq(s, "UriTooLong") {
            return Ok(HttpStatus::UriTooLong);
        }
        if str_eq(s, "UnsupportedMediaType") {
            return Ok(HttpStatus::UnsupportedMediaType);
        }
        if str_eq(s, "RangeNotSatisfiable") {
            return Ok(HttpStatus::RangeNotSatisfiable);
        }
        if str_eq(s, "ExceptionFailed") {
            return Ok(HttpStatus::ExceptionFailed);
        }
        if str_eq(s, "ImATeapot") {
            return Ok(HttpStatus::ImATeapot);
        }
        if str_eq(s, "MisdirectedRequest") {
            return Ok(HttpStatus::MisdirectedRequest);
        }
        if str_eq(s, "UnprocessableEntity") {
            return Ok(HttpStatus::UnprocessableEntity);
        }
        if str_eq(s, "Locked") {
            return Ok(HttpStatus::Locked);
        }
        if str_eq(s, "FailedDependency") {
            return Ok(HttpStatus::FailedDependency);
        }
        if str_eq(s, "UpgradeRequired") {
            return Ok(HttpStatus::UpgradeRequired);
        }
        if str_eq(s, "UnavailableForLegalReasons") {
            return Ok(HttpStatus::UnavailableForLegalReasons);
        }
        if str_eq(s, "InternalServerError") {
            return Ok(HttpStatus::InternalServerError);
        }
        if str_eq(s, "NotImplemented") {
            return Ok(HttpStatus::NotImplemented);
        }
        if str_eq(s, "BadGateway") {
            return Ok(HttpStatus::BadGateway);
        }
        if str_eq(s, "ServiceUnavailable") {
            return Ok(HttpStatus::ServiceUnavailable);
        }
        if str_eq(s, "GatewayTimeout") {
            return Ok(HttpStatus::GatewayTimeout);
        }
        if str_eq(s, "HttpVersionNotSupported") {
            return Ok(HttpStatus::HttpVersionNotSupported);
        }
        if str_eq(s, "VariantAlsoNegotiates") {
            return Ok(HttpStatus::VariantAlsoNegotiates);
        }
        if str_eq(s, "InsufficientStorage") {
            return Ok(HttpStatus::InsufficientStorage);
        }
        if str_eq(s, "LoopDetected") {
            return Ok(HttpStatus::LoopDetected);
        }
        if str_eq(s, "BandwidthLimitExceeded") {
            return Ok(HttpStatus::BandwidthLimitExceeded);
        }
        if str_eq(s, "NotExtended") {
            return Ok(HttpStatus::NotExtended);
        }
        proof {
            assert forall|v: HttpStatus| v.spec_name() != s@ by {
                match v {
                    HttpStatus::Continue => {},
                    HttpStatus::SwitchingProtocols => {},
                    HttpStatus::Processing => {},
                    HttpStatus::Okay => {},
                    HttpStatus::Created => {},
                    HttpStatus::Accepted => {},
                    HttpStatus::NonAuthoritativeInformation => {},
                    HttpStatus::NoContent => {},
                    HttpStatus::ResetContent => {},
                    HttpStatus::PartialContent => {},
                    HttpStatus::MultiStatus => {},
                    HttpStatus::AlreadyReported => {},
                    HttpStatus::ImUsed => {},
                    HttpStatus::MultipleChoices => {},
                    HttpStatus::MovedPermanently => {},
                    HttpStatus::Found => {},
                    HttpStatus::SeeOther => {},
                    HttpStatus::NotModified => {},
                    HttpStatus::UseProxy => {},
                    HttpStatus::TemporaryRedirect => {},
                    HttpStatus::PermanentRedirect => {},
                    HttpStatus::BadRequest => {},
                    HttpStatus::Unauthorized => {},
                    HttpStatus::PaymentRequired => {},
                    HttpStatus::Forbidden => {},
                    HttpStatus::NotFound => {},
                    HttpStatus::MethodNotAllowed => {},
                    HttpStatus::NotAcceptable => {},
                    HttpStatus::ProxyAuthenticationRequired => {},
                    HttpStatus::RequestTimeout => {},
                    HttpStatus::Conflict => {},
                    HttpStatus::Gone => {},
                    HttpStatus::LengthRequired => {},
                    HttpStatus::PreconditionFailed => {},
                    HttpStatus::PayloadTooLarge => {},
                    HttpStatus::UriTooLong => {},
                    HttpStatus::UnsupportedMediaType => {},
                    HttpStatus::RangeNotSatisfiable => {},
                    HttpStatus::ExceptionFailed => {},
                    HttpStatus::ImATeapot => {},
                    HttpStatus::MisdirectedRequest => {},
                    HttpStatus::UnprocessableEntity => {},
                    HttpStatus::Locked => {},
                    HttpStatus::FailedDependency => {},
                    HttpStatus::UpgradeRequired => {},
                    HttpStatus::UnavailableForLegalReasons => {},
                    HttpStatus::InternalServerError => {},
                    HttpStatus::NotImplemented => {},
                    HttpStatus::BadGateway => {},
                    HttpStatus::ServiceUnavailable => {},
                    HttpStatus::GatewayTimeout => {},
                    HttpStatus::HttpVersionNotSupported => {},
                    HttpStatus::VariantAlsoNegotiates => {},
                    HttpStatus::InsufficientStorage => {},
                    HttpStatus::LoopDetected => {},
                    HttpStatus::BandwidthLimitExceeded => {},
                    HttpStatus::NotExtended => {},
                }
            }
        }
        Err(Error::invalid())
    }
}

} // verus!
