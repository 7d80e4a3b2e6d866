//! HTTP requests and responses: methods, status codes, headers, and the bytes a response is sent as.
use vstd::prelude::*;
use std::rc::Rc;
use crate::server::{be8, be_bytes};
use crate::text::{copy_bytes, decimal, push_char, push_decimal, push_str, str_eq, utf8};

verus! {

// ---------------------------------------------------------------------------
// Header names
// ---------------------------------------------------------------------------

pub enum HeaderKey {
    Host,
    Connection,
    AIM,
    Accept,
    AcceptCharset,
    AcceptEncoding,
    AcceptLanguage,
    AccessControlRequestMethod,
    AccessControlRequestHeaders,
    Authorization,
    CacheControl,
    ContentEncoding,
    ContentLength,
    ContentMD5,
    ContentType,
    Cookie,
    Date,
    Expect,
    Forwarded,
    From,
    HTTP2Settings,
    IfMatch,
    IfModifiedSince,
    IfNoneMatch,
    IfUnmodifiedSince,
    MaxForwards,
    Origin,
    Pragma,
    Prefer,
    ProxyAuthorization,
    Range,
    Referer,
    TE,
    Trailer,
    TransferEncoding,
    UserAgent,
    Upgrade,
    Via,
    Warning,
    Other(String),
}

impl Clone for HeaderKey {
    fn clone(&self) -> (r: Self)
        ensures
            r == *self,
    {
        match self {
            HeaderKey::Host => HeaderKey::Host,
            HeaderKey::Connection => HeaderKey::Connection,
            HeaderKey::AIM => HeaderKey::AIM,
            HeaderKey::Accept => HeaderKey::Accept,
            HeaderKey::AcceptCharset => HeaderKey::AcceptCharset,
            HeaderKey::AcceptEncoding => HeaderKey::AcceptEncoding,
            HeaderKey::AcceptLanguage => HeaderKey::AcceptLanguage,
            HeaderKey::AccessControlRequestMethod => HeaderKey::AccessControlRequestMethod,
            HeaderKey::AccessControlRequestHeaders => HeaderKey::AccessControlRequestHeaders,
            HeaderKey::Authorization => HeaderKey::Authorization,
            HeaderKey::CacheControl => HeaderKey::CacheControl,
            HeaderKey::ContentEncoding => HeaderKey::ContentEncoding,
            HeaderKey::ContentLength => HeaderKey::ContentLength,
            HeaderKey::ContentMD5 => HeaderKey::ContentMD5,
            HeaderKey::ContentType => HeaderKey::ContentType,
            HeaderKey::Cookie => HeaderKey::Cookie,
            HeaderKey::Date => HeaderKey::Date,
            HeaderKey::Expect => HeaderKey::Expect,
            HeaderKey::Forwarded => HeaderKey::Forwarded,
            HeaderKey::From => HeaderKey::From,
            HeaderKey::HTTP2Settings => HeaderKey::HTTP2Settings,
            HeaderKey::IfMatch => HeaderKey::IfMatch,
            HeaderKey::IfModifiedSince => HeaderKey::IfModifiedSince,
            HeaderKey::IfNoneMatch => HeaderKey::IfNoneMatch,
            HeaderKey::IfUnmodifiedSince => HeaderKey::IfUnmodifiedSince,
            HeaderKey::MaxForwards => HeaderKey::MaxForwards,
            HeaderKey::Origin => HeaderKey::Origin,
            HeaderKey::Pragma => HeaderKey::Pragma,
            HeaderKey::Prefer => HeaderKey::Prefer,
            HeaderKey::ProxyAuthorization => HeaderKey::ProxyAuthorization,
            HeaderKey::Range => HeaderKey::Range,
            HeaderKey::Referer => HeaderKey::Referer,
            HeaderKey::TE => HeaderKey::TE,
            HeaderKey::Trailer => HeaderKey::Trailer,
            HeaderKey::TransferEncoding => HeaderKey::TransferEncoding,
            HeaderKey::UserAgent => HeaderKey::UserAgent,
            HeaderKey::Upgrade => HeaderKey::Upgrade,
            HeaderKey::Via => HeaderKey::Via,
            HeaderKey::Warning => HeaderKey::Warning,
            HeaderKey::Other(s) => HeaderKey::Other(s.clone()),
        }
    }
}

/// The name a header key is written as.
pub open spec fn key_name(k: HeaderKey) -> Seq<char> {
    match k {
        HeaderKey::Host => "Host"@,
        HeaderKey::Connection => "Connection"@,
        HeaderKey::AIM => "A-IM"@,
        HeaderKey::Accept => "Accept"@,
        HeaderKey::AcceptCharset => "Accept-Charset"@,
        HeaderKey::AcceptEncoding => "Accept-Encoding"@,
        HeaderKey::AcceptLanguage => "Accept-Language"@,
        HeaderKey::AccessControlRequestMethod => "Access-Control-Request-Method"@,
        HeaderKey::AccessControlRequestHeaders => "Access-Control-Request-Headers"@,
        HeaderKey::Authorization => "Authorization"@,
        HeaderKey::CacheControl => "Cache-Control"@,
        HeaderKey::ContentEncoding => "Content-Encoding"@,
        HeaderKey::ContentLength => "Content-Length"@,
        HeaderKey::ContentMD5 => "Content-MD5"@,
        HeaderKey::ContentType => "Content-Type"@,
        HeaderKey::Cookie => "Cookie"@,
        HeaderKey::Date => "Date"@,
        HeaderKey::Expect => "Expect"@,
        HeaderKey::Forwarded => "Forwarded"@,
        HeaderKey::From => "From"@,
        HeaderKey::HTTP2Settings => "HTTP2-Settings"@,
        HeaderKey::IfMatch => "If-Match"@,
        HeaderKey::IfModifiedSince => "If-Modified-Since"@,
        HeaderKey::IfNoneMatch => "If-None-Match"@,
        HeaderKey::IfUnmodifiedSince => "If-Unmodified-Since"@,
        HeaderKey::MaxForwards => "Max-Forwards"@,
        HeaderKey::Origin => "Origin"@,
        HeaderKey::Pragma => "Pragma"@,
        HeaderKey::Prefer => "Prefer"@,
        HeaderKey::ProxyAuthorization => "Proxy-Authorization"@,
        HeaderKey::Range => "Range"@,
        HeaderKey::Referer => "Referer"@,
        HeaderKey::TE => "TE"@,
        HeaderKey::Trailer => "Trailer"@,
        HeaderKey::TransferEncoding => "Transfer-Encoding"@,
        HeaderKey::UserAgent => "User-Agent"@,
        HeaderKey::Upgrade => "Upgrade"@,
        HeaderKey::Via => "Via"@,
        HeaderKey::Warning => "Warning"@,
        HeaderKey::Other(s) => s@,
    }
}

/// The standard header key with the given name, if there is one.
pub open spec fn standard_key(s: Seq<char>) -> Option<HeaderKey> {
    if s == "Host"@ {
        Some(HeaderKey::Host)
    } else if s == "Connection"@ {
        Some(HeaderKey::Connection)
    } else if s == "A-IM"@ {
        Some(HeaderKey::AIM)
    } else if s == "Accept"@ {
        Some(HeaderKey::Accept)
    } else if s == "Accept-Charset"@ {
        Some(HeaderKey::AcceptCharset)
    } else if s == "Accept-Encoding"@ {
        Some(HeaderKey::AcceptEncoding)
    } else if s == "Accept-Language"@ {
        Some(HeaderKey::AcceptLanguage)
    } else if s == "Access-Control-Request-Method"@ {
        Some(HeaderKey::AccessControlRequestMethod)
    } else if s == "Access-Control-Request-Headers"@ {
        Some(HeaderKey::AccessControlRequestHeaders)
    } else if s == "Authorization"@ {
        Some(HeaderKey::Authorization)
    } else if s == "Cache-Control"@ {
        Some(HeaderKey::CacheControl)
    } else if s == "Content-Encoding"@ {
        Some(HeaderKey::ContentEncoding)
    } else if s == "Content-Length"@ {
        Some(HeaderKey::ContentLength)
    } else if s == "Content-MD5"@ {
        Some(HeaderKey::ContentMD5)
    } else if s == "Content-Type"@ {
        Some(HeaderKey::ContentType)
    } else if s == "Cookie"@ {
        Some(HeaderKey::Cookie)
    } else if s == "Date"@ {
        Some(HeaderKey::Date)
    } else if s == "Expect"@ {
        Some(HeaderKey::Expect)
    } else if s == "Forwarded"@ {
        Some(HeaderKey::Forwarded)
    } else if s == "From"@ {
        Some(HeaderKey::From)
    } else if s == "HTTP2-Settings"@ {
        Some(HeaderKey::HTTP2Settings)
    } else if s == "If-Match"@ {
        Some(HeaderKey::IfMatch)
    } else if s == "If-Modified-Since"@ {
        Some(HeaderKey::IfModifiedSince)
    } else if s == "If-None-Match"@ {
        Some(HeaderKey::IfNoneMatch)
    } else if s == "If-Unmodified-Since"@ {
        Some(HeaderKey::IfUnmodifiedSince)
    } else if s == "Max-Forwards"@ {
        Some(HeaderKey::MaxForwards)
    } else if s == "Origin"@ {
        Some(HeaderKey::Origin)
    } else if s == "Pragma"@ {
        Some(HeaderKey::Pragma)
    } else if s == "Prefer"@ {
        Some(HeaderKey::Prefer)
    } else if s == "Proxy-Authorization"@ {
        Some(HeaderKey::ProxyAuthorization)
    } else if s == "Range"@ {
        Some(HeaderKey::Range)
    } else if s == "Referer"@ {
        Some(HeaderKey::Referer)
    } else if s == "TE"@ {
        Some(HeaderKey::TE)
    } else if s == "Trailer"@ {
        Some(HeaderKey::Trailer)
    } else if s == "Transfer-Encoding"@ {
        Some(HeaderKey::TransferEncoding)
    } else if s == "User-Agent"@ {
        Some(HeaderKey::UserAgent)
    } else if s == "Upgrade"@ {
        Some(HeaderKey::Upgrade)
    } else if s == "Via"@ {
        Some(HeaderKey::Via)
    } else if s == "Warning"@ {
        Some(HeaderKey::Warning)
    } else {
        None
    }
}

/// A key that names itself: an `Other` key holds no standard name.
pub open spec fn key_wf(k: HeaderKey) -> bool {
    k matches HeaderKey::Other(s) ==> standard_key(s@) is None
}

impl HeaderKey {
    /// The key a header name stands for: a standard key, or else `Other` with the name.
    pub fn from_name(s: &str) -> (r: HeaderKey)
        ensures
            match standard_key(s@) {
                Some(k) => r == k,
                None => r matches HeaderKey::Other(t) && t@ == s@,
            },
    {
        if str_eq(s, "Host") {
            HeaderKey::Host
        } else if str_eq(s, "Connection") {
            HeaderKey::Connection
        } else if str_eq(s, "A-IM") {
            HeaderKey::AIM
        } else if str_eq(s, "Accept") {
            HeaderKey::Accept
        } else if str_eq(s, "Accept-Charset") {
            HeaderKey::AcceptCharset
        } else if str_eq(s, "Accept-Encoding") {
            HeaderKey::AcceptEncoding
        } else if str_eq(s, "Accept-Language") {
            HeaderKey::AcceptLanguage
        } else if str_eq(s, "Access-Control-Request-Method") {
            HeaderKey::AccessControlRequestMethod
        } else if str_eq(s, "Access-Control-Request-Headers") {
            HeaderKey::AccessControlRequestHeaders
        } else if str_eq(s, "Authorization") {
            HeaderKey::Authorization
        } else if str_eq(s, "Cache-Control") {
            HeaderKey::CacheControl
        } else if str_eq(s, "Content-Encoding") {
            HeaderKey::ContentEncoding
        } else if str_eq(s, "Content-Length") {
            HeaderKey::ContentLength
        } else if str_eq(s, "Content-MD5") {
            HeaderKey::ContentMD5
        } else if str_eq(s, "Content-Type") {
            HeaderKey::ContentType
        } else if str_eq(s, "Cookie") {
            HeaderKey::Cookie
        } else if str_eq(s, "Date") {
            HeaderKey::Date
        } else if str_eq(s, "Expect") {
            HeaderKey::Expect
        } else if str_eq(s, "Forwarded") {
            HeaderKey::Forwarded
        } else if str_eq(s, "From") {
            HeaderKey::From
        } else if str_eq(s, "HTTP2-Settings") {
            HeaderKey::HTTP2Settings
        } else if str_eq(s, "If-Match") {
            HeaderKey::IfMatch
        } else if str_eq(s, "If-Modified-Since") {
            HeaderKey::IfModifiedSince
        } else if str_eq(s, "If-None-Match") {
            HeaderKey::IfNoneMatch
        } else if str_eq(s, "If-Unmodified-Since") {
            HeaderKey::IfUnmodifiedSince
        } else if str_eq(s, "Max-Forwards") {
            HeaderKey::MaxForwards
        } else if str_eq(s, "Origin") {
            HeaderKey::Origin
        } else if str_eq(s, "Pragma") {
            HeaderKey::Pragma
        } else if str_eq(s, "Prefer") {
            HeaderKey::Prefer
        } else if str_eq(s, "Proxy-Authorization") {
            HeaderKey::ProxyAuthorization
        } else if str_eq(s, "Range") {
            HeaderKey::Range
        } else if str_eq(s, "Referer") {
            HeaderKey::Referer
        } else if str_eq(s, "TE") {
            HeaderKey::TE
        } else if str_eq(s, "Trailer") {
            HeaderKey::Trailer
        } else if str_eq(s, "Transfer-Encoding") {
            HeaderKey::TransferEncoding
        } else if str_eq(s, "User-Agent") {
            HeaderKey::UserAgent
        } else if str_eq(s, "Upgrade") {
            HeaderKey::Upgrade
        } else if str_eq(s, "Via") {
            HeaderKey::Via
        } else if str_eq(s, "Warning") {
            HeaderKey::Warning
        } else {
            HeaderKey::Other(s.to_owned())
        }
    }

    /// The name the key is written as.
    pub fn to_string(&self) -> (r: String)
        ensures
            r@ == key_name(*self),
    {
        match self {
            HeaderKey::Host => "Host".to_owned(),
            HeaderKey::Connection => "Connection".to_owned(),
            HeaderKey::AIM => "A-IM".to_owned(),
            HeaderKey::Accept => "Accept".to_owned(),
            HeaderKey::AcceptCharset => "Accept-Charset".to_owned(),
            HeaderKey::AcceptEncoding => "Accept-Encoding".to_owned(),
            HeaderKey::AcceptLanguage => "Accept-Language".to_owned(),
            HeaderKey::AccessControlRequestMethod => "Access-Control-Request-Method".to_owned(),
            HeaderKey::AccessControlRequestHeaders => "Access-Control-Request-Headers".to_owned(),
            HeaderKey::Authorization => "Authorization".to_owned(),
            HeaderKey::CacheControl => "Cache-Control".to_owned(),
            HeaderKey::ContentEncoding => "Content-Encoding".to_owned(),
            HeaderKey::ContentLength => "Content-Length".to_owned(),
            HeaderKey::ContentMD5 => "Content-MD5".to_owned(),
            HeaderKey::ContentType => "Content-Type".to_owned(),
            HeaderKey::Cookie => "Cookie".to_owned(),
            HeaderKey::Date => "Date".to_owned(),
            HeaderKey::Expect => "Expect".to_owned(),
            HeaderKey::Forwarded => "Forwarded".to_owned(),
            HeaderKey::From => "From".to_owned(),
            HeaderKey::HTTP2Settings => "HTTP2-Settings".to_owned(),
            HeaderKey::IfMatch => "If-Match".to_owned(),
            HeaderKey::IfModifiedSince => "If-Modified-Since".to_owned(),
            HeaderKey::IfNoneMatch => "If-None-Match".to_owned(),
            HeaderKey::IfUnmodifiedSince => "If-Unmodified-Since".to_owned(),
            HeaderKey::MaxForwards => "Max-Forwards".to_owned(),
            HeaderKey::Origin => "Origin".to_owned(),
            HeaderKey::Pragma => "Pragma".to_owned(),
            HeaderKey::Prefer => "Prefer".to_owned(),
            HeaderKey::ProxyAuthorization => "Proxy-Authorization".to_owned(),
            HeaderKey::Range => "Range".to_owned(),
            HeaderKey::Referer => "Referer".to_owned(),
            HeaderKey::TE => "TE".to_owned(),
            HeaderKey::Trailer => "Trailer".to_owned(),
            HeaderKey::TransferEncoding => "Transfer-Encoding".to_owned(),
            HeaderKey::UserAgent => "User-Agent".to_owned(),
            HeaderKey::Upgrade => "Upgrade".to_owned(),
            HeaderKey::Via => "Via".to_owned(),
            HeaderKey::Warning => "Warning".to_owned(),
            HeaderKey::Other(header) => header.clone(),
        }
    }
}

impl std::str::FromStr for HeaderKey {
    type Err = ();

    /// Never fails: the key `from_name` gives.
    fn from_str(s: &str) -> (r: Result<Self, Self::Err>)
        ensures
            match r {
                Ok(k) => match standard_key(s@) {
                    Some(std_key) => k == std_key,
                    None => k matches HeaderKey::Other(t) && t@ == s@,
                },
                Err(_) => false,
            },
    {
        Ok(HeaderKey::from_name(s))
    }
}

// ---------------------------------------------------------------------------
// Methods
// ---------------------------------------------------------------------------

pub enum Method {
    Get,
    Post,
    Put,
    Delete,
    Head,
    Connect,
    Options,
    Trace,
    Patch,
    Other(String),
}

impl Clone for Method {
    fn clone(&self) -> (r: Self)
        ensures
            r == *self,
    {
        match self {
            Method::Get => Method::Get,
            Method::Post => Method::Post,
            Method::Put => Method::Put,
            Method::Delete => Method::Delete,
            Method::Head => Method::Head,
            Method::Connect => Method::Connect,
            Method::Options => Method::Options,
            Method::Trace => Method::Trace,
            Method::Patch => Method::Patch,
            Method::Other(s) => Method::Other(s.clone()),
        }
    }
}

/// The name a method is written as.
pub open spec fn method_name(m: Method) -> Seq<char> {
    match m {
        Method::Get => "GET"@,
        Method::Post => "POST"@,
        Method::Put => "PUT"@,
        Method::Delete => "DELETE"@,
        Method::Head => "HEAD"@,
        Method::Connect => "CONNECT"@,
        Method::Options => "OPTIONS"@,
        Method::Trace => "TRACE"@,
        Method::Patch => "PATCH"@,
        Method::Other(s) => s@,
    }
}

/// The standard method with the given name, if there is one.
pub open spec fn standard_method(s: Seq<char>) -> Option<Method> {
    if s == "GET"@ {
        Some(Method::Get)
    } else if s == "POST"@ {
        Some(Method::Post)
    } else if s == "PUT"@ {
        Some(Method::Put)
    } else if s == "DELETE"@ {
        Some(Method::Delete)
    } else if s == "HEAD"@ {
        Some(Method::Head)
    } else if s == "CONNECT"@ {
        Some(Method::Connect)
    } else if s == "OPTIONS"@ {
        Some(Method::Options)
    } else if s == "TRACE"@ {
        Some(Method::Trace)
    } else if s == "PATCH"@ {
        Some(Method::Patch)
    } else {
        None
    }
}

/// A method that names itself: an `Other` method holds no standard name.
pub open spec fn method_wf(m: Method) -> bool {
    m matches Method::Other(s) ==> standard_method(s@) is None
}

impl From<&str> for Method {
    /// The method a name stands for: a standard method, or else `Other` with the name.
    fn from(value: &str) -> (r: Method)
        ensures
            match standard_method(value@) {
                Some(m) => r == m,
                None => r matches Method::Other(t) && t@ == value@,
            },
    {
        if str_eq(value, "GET") {
            Method::Get
        } else if str_eq(value, "POST") {
            Method::Post
        } else if str_eq(value, "PUT") {
            Method::Put
        } else if str_eq(value, "DELETE") {
            Method::Delete
        } else if str_eq(value, "HEAD") {
            Method::Head
        } else if str_eq(value, "CONNECT") {
            Method::Connect
        } else if str_eq(value, "OPTIONS") {
            Method::Options
        } else if str_eq(value, "TRACE") {
            Method::Trace
        } else if str_eq(value, "PATCH") {
            Method::Patch
        } else {
            Method::Other(value.to_owned())
        }
    }
}

impl vstd::std_specs::convert::FromSpecImpl<&str> for Method {
    /// The method's `Other` holds a new string, which a spec function cannot name, so the
    /// contract of `from` itself says what it returns.
    open spec fn obeys_from_spec() -> bool {
        false
    }

    open spec fn from_spec(v: &str) -> Method {
        Method::Get
    }
}

impl Method {
    /// The name the method is written as.
    pub fn to_string(&self) -> (r: String)
        ensures
            r@ == method_name(*self),
    {
        match self {
            Method::Get => "GET".to_owned(),
            Method::Post => "POST".to_owned(),
            Method::Put => "PUT".to_owned(),
            Method::Delete => "DELETE".to_owned(),
            Method::Head => "HEAD".to_owned(),
            Method::Connect => "CONNECT".to_owned(),
            Method::Options => "OPTIONS".to_owned(),
            Method::Trace => "TRACE".to_owned(),
            Method::Patch => "PATCH".to_owned(),
            Method::Other(other) => other.clone(),
        }
    }
}

// ---------------------------------------------------------------------------
// Status codes
// ---------------------------------------------------------------------------

#[derive(Clone, Copy, Debug, PartialEq, Eq, Structural)]
pub enum HttpCode {
    Continue,
    SwitchingProtocols,
    Processing,
    EarlyHints,
    OK,
    Created,
    Accepted,
    NonAuthorativeInformation,
    NoContent,
    ResetContent,
    PartialContent,
    MultiStatus,
    AlreadyReported,
    IMUsed,
    MultipleChoices,
    MovedPermanently,
    Found,
    SeeOther,
    NotModified,
    UseProxy,
    SwitchProxy,
    TemporaryRedirect,
    PermanentRedirect,
    BadRequest,
    Unauthorized,
    PaymentRequired,
    Forbidden,
    NotFound,
    MethodNotAllowed,
    NotAcceptable,
    ProxyAuthenticationRequired,
    RequestTimeOut,
    Conflict,
    Gone,
    LengthRequired,
    PreconditionFailed,
    PayloadTooLarge,
    URITooLong,
    UnsupportedMediaType,
    RangeNotSatisfiable,
    ExpectationFailed,
    MisdirectedRequest,
    UnprocessableRequest,
    Locked,
    FailedDependency,
    TooEarly,
    UpgradeRequired,
    PreconditionRequired,
    TooManyRequests,
    RequestHeaderFieldsTooLarge,
    UnavailableForLegalReasons,
    InternalServerError,
    NotImplemented,
    BadGateway,
    ServiceUnavailable,
    GatewayTimeout,
    HttpVersionNotSupported,
    VariantAlsoNegotiates,
    InsufficientStorage,
    LoopDetected,
    NotExtended,
    NetworkAuthenticationRequired,
}

/// The number of a status code.
pub open spec fn code_number(c: HttpCode) -> u16 {
    match c {
        HttpCode::Continue => 100,
        HttpCode::SwitchingProtocols => 101,
        HttpCode::Processing => 102,
        HttpCode::EarlyHints => 103,
        HttpCode::OK => 200,
        HttpCode::Created => 201,
        HttpCode::Accepted => 202,
        HttpCode::NonAuthorativeInformation => 203,
        HttpCode::NoContent => 204,
        HttpCode::ResetContent => 205,
        HttpCode::PartialContent => 206,
        HttpCode::MultiStatus => 207,
        HttpCode::AlreadyReported => 208,
        HttpCode::IMUsed => 226,
        HttpCode::MultipleChoices => 300,
        HttpCode::MovedPermanently => 301,
        HttpCode::Found => 302,
        HttpCode::SeeOther => 303,
        HttpCode::NotModified => 304,
        HttpCode::UseProxy => 305,
        HttpCode::SwitchProxy => 306,
        HttpCode::TemporaryRedirect => 307,
        HttpCode::PermanentRedirect => 308,
        HttpCode::BadRequest => 400,
        HttpCode::Unauthorized => 401,
        HttpCode::PaymentRequired => 402,
        HttpCode::Forbidden => 403,
        HttpCode::NotFound => 404,
        HttpCode::MethodNotAllowed => 405,
        HttpCode::NotAcceptable => 406,
        HttpCode::ProxyAuthenticationRequired => 407,
        HttpCode::RequestTimeOut => 408,
        HttpCode::Conflict => 409,
        HttpCode::Gone => 410,
        HttpCode::LengthRequired => 411,
        HttpCode::PreconditionFailed => 412,
        HttpCode::PayloadTooLarge => 413,
        HttpCode::URITooLong => 414,
        HttpCode::UnsupportedMediaType => 415,
        HttpCode::RangeNotSatisfiable => 416,
        HttpCode::ExpectationFailed => 417,
        HttpCode::MisdirectedRequest => 421,
        HttpCode::UnprocessableRequest => 422,
        HttpCode::Locked => 423,
        HttpCode::FailedDependency => 424,
        HttpCode::TooEarly => 425,
        HttpCode::UpgradeRequired => 426,
        HttpCode::PreconditionRequired => 428,
        HttpCode::TooManyRequests => 429,
        HttpCode::RequestHeaderFieldsTooLarge => 431,
        HttpCode::UnavailableForLegalReasons => 451,
        HttpCode::InternalServerError => 500,
        HttpCode::NotImplemented => 501,
        HttpCode::BadGateway => 502,
        HttpCode::ServiceUnavailable => 503,
        HttpCode::GatewayTimeout => 504,
        HttpCode::HttpVersionNotSupported => 505,
        HttpCode::VariantAlsoNegotiates => 506,
        HttpCode::InsufficientStorage => 507,
        HttpCode::LoopDetected => 508,
        HttpCode::NotExtended => 510,
        HttpCode::NetworkAuthenticationRequired => 511,
    }
}

/// The status code with the given number, if there is one.
pub open spec fn code_of(n: u16) -> Option<HttpCode> {
    if n == 100 {
        Some(HttpCode::Continue)
    } else if n == 101 {
        Some(HttpCode::SwitchingProtocols)
    } else if n == 102 {
        Some(HttpCode::Processing)
    } else if n == 103 {
        Some(HttpCode::EarlyHints)
    } else if n == 200 {
        Some(HttpCode::OK)
    } else if n == 201 {
        Some(HttpCode::Created)
    } else if n == 202 {
        Some(HttpCode::Accepted)
    } else if n == 203 {
        Some(HttpCode::NonAuthorativeInformation)
    } else if n == 204 {
        Some(HttpCode::NoContent)
    } else if n == 205 {
        Some(HttpCode::ResetContent)
    } else if n == 206 {
        Some(HttpCode::PartialContent)
    } else if n == 207 {
        Some(HttpCode::MultiStatus)
    } else if n == 208 {
        Some(HttpCode::AlreadyReported)
    } else if n == 226 {
        Some(HttpCode::IMUsed)
    } else if n == 300 {
        Some(HttpCode::MultipleChoices)
    } else if n == 301 {
        Some(HttpCode::MovedPermanently)
    } else if n == 302 {
        Some(HttpCode::Found)
    } else if n == 303 {
        Some(HttpCode::SeeOther)
    } else if n == 304 {
        Some(HttpCode::NotModified)
    } else if n == 305 {
        Some(HttpCode::UseProxy)
    } else if n == 306 {
        Some(HttpCode::SwitchProxy)
    } else if n == 307 {
        Some(HttpCode::TemporaryRedirect)
    } else if n == 308 {
        Some(HttpCode::PermanentRedirect)
    } else if n == 400 {
        Some(HttpCode::BadRequest)
    } else if n == 401 {
        Some(HttpCode::Unauthorized)
    } else if n == 402 {
        Some(HttpCode::PaymentRequired)
    } else if n == 403 {
        Some(HttpCode::Forbidden)
    } else if n == 404 {
        Some(HttpCode::NotFound)
    } else if n == 405 {
        Some(HttpCode::MethodNotAllowed)
    } else if n == 406 {
        Some(HttpCode::NotAcceptable)
    } else if n == 407 {
        Some(HttpCode::ProxyAuthenticationRequired)
    } else if n == 408 {
        Some(HttpCode::RequestTimeOut)
    } else if n == 409 {
        Some(HttpCode::Conflict)
    } else if n == 410 {
        Some(HttpCode::Gone)
    } else if n == 411 {
        Some(HttpCode::LengthRequired)
    } else if n == 412 {
        Some(HttpCode::PreconditionFailed)
    } else if n == 413 {
        Some(HttpCode::PayloadTooLarge)
    } else if n == 414 {
        Some(HttpCode::URITooLong)
    } else if n == 415 {
        Some(HttpCode::UnsupportedMediaType)
    } else if n == 416 {
        Some(HttpCode::RangeNotSatisfiable)
    } else if n == 417 {
        Some(HttpCode::ExpectationFailed)
    } else if n == 421 {
        Some(HttpCode::MisdirectedRequest)
    } else if n == 422 {
        Some(HttpCode::UnprocessableRequest)
    } else if n == 423 {
        Some(HttpCode::Locked)
    } else if n == 424 {
        Some(HttpCode::FailedDependency)
    } else if n == 425 {
        Some(HttpCode::TooEarly)
    } else if n == 426 {
        Some(HttpCode::UpgradeRequired)
    } else if n == 428 {
        Some(HttpCode::PreconditionRequired)
    } else if n == 429 {
        Some(HttpCode::TooManyRequests)
    } else if n == 431 {
        Some(HttpCode::RequestHeaderFieldsTooLarge)
    } else if n == 451 {
        Some(HttpCode::UnavailableForLegalReasons)
    } else if n == 500 {
        Some(HttpCode::InternalServerError)
    } else if n == 501 {
        Some(HttpCode::NotImplemented)
    } else if n == 502 {
        Some(HttpCode::BadGateway)
    } else if n == 503 {
        Some(HttpCode::ServiceUnavailable)
    } else if n == 504 {
        Some(HttpCode::GatewayTimeout)
    } else if n == 505 {
        Some(HttpCode::HttpVersionNotSupported)
    } else if n == 506 {
        Some(HttpCode::VariantAlsoNegotiates)
    } else if n == 507 {
        Some(HttpCode::InsufficientStorage)
    } else if n == 508 {
        Some(HttpCode::LoopDetected)
    } else if n == 510 {
        Some(HttpCode::NotExtended)
    } else if n == 511 {
        Some(HttpCode::NetworkAuthenticationRequired)
    } else {
        None
    }
}

/// The status line text of a code: its number and reason.
pub open spec fn code_text(c: HttpCode) -> Seq<char> {
    match c {
        HttpCode::Continue => "100 Continue"@,
        HttpCode::SwitchingProtocols => "101 Switching Protocols"@,
        HttpCode::Processing => "102 Processing"@,
        HttpCode::EarlyHints => "103 Early Hints"@,
        HttpCode::OK => "200 OK"@,
        HttpCode::Created => "201 Created"@,
        HttpCode::Accepted => "202 Accepted"@,
        HttpCode::NonAuthorativeInformation => "203 Non-Authorative Information"@,
        HttpCode::NoContent => "204 No Content"@,
        HttpCode::ResetContent => "205 Reset Content"@,
        HttpCode::PartialContent => "206 Partial Content"@,
        HttpCode::MultiStatus => "207 Multi-Status"@,
        HttpCode::AlreadyReported => "208 Already Reported"@,
        HttpCode::IMUsed => "226 IM Used"@,
        HttpCode::MultipleChoices => "300 Multiple Choices"@,
        HttpCode::MovedPermanently => "301 Moved Permanently"@,
        HttpCode::Found => "302 Found"@,
        HttpCode::SeeOther => "303 See Other"@,
        HttpCode::NotModified => "304 Not Modified"@,
        HttpCode::UseProxy => "305 Use Proxy"@,
        HttpCode::SwitchProxy => "306 Switch Proxy"@,
        HttpCode::TemporaryRedirect => "307 Temporary Redirect"@,
        HttpCode::PermanentRedirect => "308 Permanent Redirect"@,
        HttpCode::BadRequest => "400 Bad Request"@,
        HttpCode::Unauthorized => "401 Unauthorized"@,
        HttpCode::PaymentRequired => "402 Payment Required"@,
        HttpCode::Forbidden => "403 Forbidden"@,
        HttpCode::NotFound => "404 Not Found"@,
        HttpCode::MethodNotAllowed => "405 Method Not Allowed"@,
        HttpCode::NotAcceptable => "406 Method Not Acceptable"@,
        HttpCode::ProxyAuthenticationRequired => "407 Proxy Authentication Required"@,
        HttpCode::RequestTimeOut => "408 Request Timeout"@,
        HttpCode::Conflict => "409 Conflict"@,
        HttpCode::Gone => "410 Gone"@,
        HttpCode::LengthRequired => "411 Length Required"@,
        HttpCode::PreconditionFailed => "412 Precondition Failed"@,
        HttpCode::PayloadTooLarge => "413 Payload Too Large"@,
        HttpCode::URITooLong => "414 URI Too Long"@,
        HttpCode::UnsupportedMediaType => "415 Unsupported Media Type"@,
        HttpCode::RangeNotSatisfiable => "416 Range Not Satisfiable"@,
        HttpCode::ExpectationFailed => "417 Expectation Failed"@,
        HttpCode::MisdirectedRequest => "421 Misdirected Request"@,
        HttpCode::UnprocessableRequest => "422 Unprocessable Request"@,
        HttpCode::Locked => "423 Locked"@,
        HttpCode::FailedDependency => "424 Failed Dependency"@,
        HttpCode::TooEarly => "425 Too Early"@,
        HttpCode::UpgradeRequired => "426 Upgrade Required"@,
        HttpCode::PreconditionRequired => "428 Precondition Required"@,
        HttpCode::TooManyRequests => "429 Too Many Requests"@,
        HttpCode::RequestHeaderFieldsTooLarge => "431 Request Header Fields Too Large"@,
        HttpCode::UnavailableForLegalReasons => "451 Unavailable For Legal Reasons"@,
        HttpCode::InternalServerError => "500 Internal Server Error"@,
        HttpCode::NotImplemented => "501 Not Implemented"@,
        HttpCode::BadGateway => "502 Bad Gateway"@,
        HttpCode::ServiceUnavailable => "503 Service Unavailable"@,
        HttpCode::GatewayTimeout => "504 Gateway Timeout"@,
        HttpCode::HttpVersionNotSupported => "505 HTTP Version Not Supported"@,
        HttpCode::VariantAlsoNegotiates => "506 Variant Also Negotiates"@,
        HttpCode::InsufficientStorage => "507 Insufficient Storage"@,
        HttpCode::LoopDetected => "508 Loop Detected"@,
        HttpCode::NotExtended => "510 Not Extended"@,
        HttpCode::NetworkAuthenticationRequired => "511 Network Authentication Required"@,
    }
}

impl TryFrom<u16> for HttpCode {
    type Error = ();

    fn try_from(value: u16) -> (r: Result<HttpCode, ()>) {
        match value {
            100 => Ok(HttpCode::Continue),
            101 => Ok(HttpCode::SwitchingProtocols),
            102 => Ok(HttpCode::Processing),
            103 => Ok(HttpCode::EarlyHints),
            200 => Ok(HttpCode::OK),
            201 => Ok(HttpCode::Created),
            202 => Ok(HttpCode::Accepted),
            203 => Ok(HttpCode::NonAuthorativeInformation),
            204 => Ok(HttpCode::NoContent),
            205 => Ok(HttpCode::ResetContent),
            206 => Ok(HttpCode::PartialContent),
            207 => Ok(HttpCode::MultiStatus),
            208 => Ok(HttpCode::AlreadyReported),
            226 => Ok(HttpCode::IMUsed),
            300 => Ok(HttpCode::MultipleChoices),
            301 => Ok(HttpCode::MovedPermanently),
            302 => Ok(HttpCode::Found),
            303 => Ok(HttpCode::SeeOther),
            304 => Ok(HttpCode::NotModified),
            305 => Ok(HttpCode::UseProxy),
            306 => Ok(HttpCode::SwitchProxy),
            307 => Ok(HttpCode::TemporaryRedirect),
            308 => Ok(HttpCode::PermanentRedirect),
            400 => Ok(HttpCode::BadRequest),
            401 => Ok(HttpCode::Unauthorized),
            402 => Ok(HttpCode::PaymentRequired),
            403 => Ok(HttpCode::Forbidden),
            404 => Ok(HttpCode::NotFound),
            405 => Ok(HttpCode::MethodNotAllowed),
            406 => Ok(HttpCode::NotAcceptable),
            407 => Ok(HttpCode::ProxyAuthenticationRequired),
            408 => Ok(HttpCode::RequestTimeOut),
            409 => Ok(HttpCode::Conflict),
            410 => Ok(HttpCode::Gone),
            411 => Ok(HttpCode::LengthRequired),
            412 => Ok(HttpCode::PreconditionFailed),
            413 => Ok(HttpCode::PayloadTooLarge),
            414 => Ok(HttpCode::URITooLong),
            415 => Ok(HttpCode::UnsupportedMediaType),
            416 => Ok(HttpCode::RangeNotSatisfiable),
            417 => Ok(HttpCode::ExpectationFailed),
            421 => Ok(HttpCode::MisdirectedRequest),
            422 => Ok(HttpCode::UnprocessableRequest),
            423 => Ok(HttpCode::Locked),
            424 => Ok(HttpCode::FailedDependency),
            425 => Ok(HttpCode::TooEarly),
            426 => Ok(HttpCode::UpgradeRequired),
            428 => Ok(HttpCode::PreconditionRequired),
            429 => Ok(HttpCode::TooManyRequests),
            431 => Ok(HttpCode::RequestHeaderFieldsTooLarge),
            451 => Ok(HttpCode::UnavailableForLegalReasons),
            500 => Ok(HttpCode::InternalServerError),
            501 => Ok(HttpCode::NotImplemented),
            502 => Ok(HttpCode::BadGateway),
            503 => Ok(HttpCode::ServiceUnavailable),
            504 => Ok(HttpCode::GatewayTimeout),
            505 => Ok(HttpCode::HttpVersionNotSupported),
            506 => Ok(HttpCode::VariantAlsoNegotiates),
            507 => Ok(HttpCode::InsufficientStorage),
            508 => Ok(HttpCode::LoopDetected),
            510 => Ok(HttpCode::NotExtended),
            511 => Ok(HttpCode::NetworkAuthenticationRequired),
            _ => Err(()),
        }
    }
}

impl vstd::std_specs::convert::TryFromSpecImpl<u16> for HttpCode {
    open spec fn obeys_try_from_spec() -> bool {
        true
    }

    open spec fn try_from_spec(v: u16) -> Result<HttpCode, ()> {
        match code_of(v) {
            Some(c) => Ok(c),
            None => Err(()),
        }
    }
}

impl From<&HttpCode> for String {
    /// The status line text of the code: its number and reason.
    fn from(value: &HttpCode) -> (r: String)
        ensures
            r@ == code_text(*value),
    {
        match value {
            HttpCode::Continue => "100 Continue".to_owned(),
            HttpCode::SwitchingProtocols => "101 Switching Protocols".to_owned(),
            HttpCode::Processing => "102 Processing".to_owned(),
            HttpCode::EarlyHints => "103 Early Hints".to_owned(),
            HttpCode::OK => "200 OK".to_owned(),
            HttpCode::Created => "201 Created".to_owned(),
            HttpCode::Accepted => "202 Accepted".to_owned(),
            HttpCode::NonAuthorativeInformation => "203 Non-Authorative Information".to_owned(),
            HttpCode::NoContent => "204 No Content".to_owned(),
            HttpCode::ResetContent => "205 Reset Content".to_owned(),
            HttpCode::PartialContent => "206 Partial Content".to_owned(),
            HttpCode::MultiStatus => "207 Multi-Status".to_owned(),
            HttpCode::AlreadyReported => "208 Already Reported".to_owned(),
            HttpCode::IMUsed => "226 IM Used".to_owned(),
            HttpCode::MultipleChoices => "300 Multiple Choices".to_owned(),
            HttpCode::MovedPermanently => "301 Moved Permanently".to_owned(),
            HttpCode::Found => "302 Found".to_owned(),
            HttpCode::SeeOther => "303 See Other".to_owned(),
            HttpCode::NotModified => "304 Not Modified".to_owned(),
            HttpCode::UseProxy => "305 Use Proxy".to_owned(),
            HttpCode::SwitchProxy => "306 Switch Proxy".to_owned(),
            HttpCode::TemporaryRedirect => "307 Temporary Redirect".to_owned(),
            HttpCode::PermanentRedirect => "308 Permanent Redirect".to_owned(),
            HttpCode::BadRequest => "400 Bad Request".to_owned(),
            HttpCode::Unauthorized => "401 Unauthorized".to_owned(),
            HttpCode::PaymentRequired => "402 Payment Required".to_owned(),
            HttpCode::Forbidden => "403 Forbidden".to_owned(),
            HttpCode::NotFound => "404 Not Found".to_owned(),
            HttpCode::MethodNotAllowed => "405 Method Not Allowed".to_owned(),
            HttpCode::NotAcceptable => "406 Method Not Acceptable".to_owned(),
            HttpCode::ProxyAuthenticationRequired => "407 Proxy Authentication Required".to_owned(),
            HttpCode::RequestTimeOut => "408 Request Timeout".to_owned(),
            HttpCode::Conflict => "409 Conflict".to_owned(),
            HttpCode::Gone => "410 Gone".to_owned(),
            HttpCode::LengthRequired => "411 Length Required".to_owned(),
            HttpCode::PreconditionFailed => "412 Precondition Failed".to_owned(),
            HttpCode::PayloadTooLarge => "413 Payload Too Large".to_owned(),
            HttpCode::URITooLong => "414 URI Too Long".to_owned(),
            HttpCode::UnsupportedMediaType => "415 Unsupported Media Type".to_owned(),
            HttpCode::RangeNotSatisfiable => "416 Range Not Satisfiable".to_owned(),
            HttpCode::ExpectationFailed => "417 Expectation Failed".to_owned(),
            HttpCode::MisdirectedRequest => "421 Misdirected Request".to_owned(),
            HttpCode::UnprocessableRequest => "422 Unprocessable Request".to_owned(),
            HttpCode::Locked => "423 Locked".to_owned(),
            HttpCode::FailedDependency => "424 Failed Dependency".to_owned(),
            HttpCode::TooEarly => "425 Too Early".to_owned(),
            HttpCode::UpgradeRequired => "426 Upgrade Required".to_owned(),
            HttpCode::PreconditionRequired => "428 Precondition Required".to_owned(),
            HttpCode::TooManyRequests => "429 Too Many Requests".to_owned(),
            HttpCode::RequestHeaderFieldsTooLarge => "431 Request Header Fields Too Large".to_owned(),
            HttpCode::UnavailableForLegalReasons => "451 Unavailable For Legal Reasons".to_owned(),
            HttpCode::InternalServerError => "500 Internal Server Error".to_owned(),
            HttpCode::NotImplemented => "501 Not Implemented".to_owned(),
            HttpCode::BadGateway => "502 Bad Gateway".to_owned(),
            HttpCode::ServiceUnavailable => "503 Service Unavailable".to_owned(),
            HttpCode::GatewayTimeout => "504 Gateway Timeout".to_owned(),
            HttpCode::HttpVersionNotSupported => "505 HTTP Version Not Supported".to_owned(),
            HttpCode::VariantAlsoNegotiates => "506 Variant Also Negotiates".to_owned(),
            HttpCode::InsufficientStorage => "507 Insufficient Storage".to_owned(),
            HttpCode::LoopDetected => "508 Loop Detected".to_owned(),
            HttpCode::NotExtended => "510 Not Extended".to_owned(),
            HttpCode::NetworkAuthenticationRequired => "511 Network Authentication Required".to_owned(),
        }
    }
}

impl vstd::std_specs::convert::FromSpecImpl<&HttpCode> for String {
    /// A new string cannot be named by a spec function, so the contract of `from` itself
    /// says what it returns.
    open spec fn obeys_from_spec() -> bool {
        false
    }

    open spec fn from_spec(v: &HttpCode) -> String {
        arbitrary()
    }
}

impl HttpCode {
    /// The status line text of the code, as bytes.
    pub fn as_bytes(&self) -> (r: Vec<u8>)
        ensures
            r@ == utf8(code_text(*self)),
    {
        let s = String::from(self);
        copy_bytes(s.as_str().as_bytes())
    }
}

// ---------------------------------------------------------------------------
// Header contents
// ---------------------------------------------------------------------------

pub enum HeaderContent<'a> {
    Bytes(&'a [u8]),
    Text(String),
    Boolean(bool),
    Number(usize),
    List(Vec<HeaderContent<'a>>),
}

/// Bytes read as characters, one each, as `char::from` reads a byte.
pub open spec fn latin1(b: Seq<u8>) -> Seq<char> {
    b.map_values(|x: u8| x as char)
}

/// The text a header content is written as.
pub open spec fn content_text<'a>(c: HeaderContent<'a>) -> Seq<char>
    decreases c,
{
    match c {
        HeaderContent::Bytes(b) => latin1(b@),
        HeaderContent::Text(s) => s@,
        HeaderContent::Boolean(b) => if b {
            "true"@
        } else {
            "false"@
        },
        HeaderContent::Number(n) => decimal(n as nat),
        HeaderContent::List(v) => list_text(v@),
    }
}

/// The text of a list of contents: each one followed by `", "`.
pub open spec fn list_text<'a>(s: Seq<HeaderContent<'a>>) -> Seq<char>
    decreases s,
{
    if s.len() == 0 {
        Seq::empty()
    } else {
        list_text(s.drop_last()) + content_text(s.last()) + ", "@
    }
}

/// The bytes of a number, the highest first, as `usize::to_be_bytes` gives them.
pub open spec fn usize_be(n: usize) -> Seq<u8> {
    if usize::BITS == 64 {
        be8(n as u64)
    } else {
        be8(n as u64).subrange(4, 8)
    }
}

/// The bytes a header content stands for.
pub open spec fn content_bytes<'a>(c: HeaderContent<'a>) -> Seq<u8>
    decreases c,
{
    match c {
        HeaderContent::Bytes(b) => b@,
        HeaderContent::Text(s) => utf8(s@),
        HeaderContent::Boolean(b) => if b {
            utf8("true"@)
        } else {
            utf8("false"@)
        },
        HeaderContent::Number(n) => usize_be(n),
        HeaderContent::List(v) => list_bytes(v@),
    }
}

/// The bytes of a list of contents, one after the other.
pub open spec fn list_bytes<'a>(s: Seq<HeaderContent<'a>>) -> Seq<u8>
    decreases s,
{
    if s.len() == 0 {
        Seq::empty()
    } else {
        list_bytes(s.drop_last()) + content_bytes(s.last())
    }
}

impl<'a> HeaderContent<'a> {
    /// The text the content is written as.
    pub fn to_string(&self) -> (r: String)
        ensures
            r@ == content_text(*self),
        decreases self,
    {
        match self {
            HeaderContent::Bytes(inner) => {
                let mut s = String::new();
                let mut k: usize = 0;
                while k < inner.len()
                    invariant
                        k <= inner@.len(),
                        s@ == latin1(inner@.take(k as int)),
                    decreases inner@.len() - k,
                {
                    push_char(&mut s, inner[k] as char);
                    k += 1;
                    assert(latin1(inner@.take(k as int)) =~= latin1(inner@.take(k - 1)).push(
                        inner@[k - 1] as char,
                    ));
                }
                assert(inner@.take(inner@.len() as int) =~= inner@);
                s
            },
            HeaderContent::Text(inner) => inner.clone(),
            HeaderContent::Boolean(inner) => if *inner {
                "true".to_owned()
            } else {
                "false".to_owned()
            },
            HeaderContent::Number(inner) => {
                let mut s = String::new();
                push_decimal(&mut s, *inner);
                s
            },
            HeaderContent::List(inner) => {
                let mut s = String::new();
                let mut k: usize = 0;
                while k < inner.len()
                    invariant
                        *self == HeaderContent::List(*inner),
                        k <= inner@.len(),
                        s@ == list_text(inner@.take(k as int)),
                    decreases inner@.len() - k,
                {
                    assert(decreases_to!(*self => (*self)->List_0));
                    assert(decreases_to!(*inner => inner@));
                    assert(decreases_to!(inner@ => inner@[k as int]));
                    assert(decreases_to!(*self => inner@[k as int]));
                    let t = inner[k].to_string();
                    push_str(&mut s, t.as_str());
                    push_str(&mut s, ", ");
                    proof {
                        reveal_strlit(", ");
                        assert(inner@.take(k + 1).drop_last() =~= inner@.take(k as int));
                    }
                    k += 1;
                }
                assert(inner@.take(inner@.len() as int) =~= inner@);
                s
            },
        }
    }

    /// The bytes the content stands for.
    pub fn as_bytes(&self) -> (r: Vec<u8>)
        ensures
            r@ == content_bytes(*self),
        decreases self,
    {
        match self {
            HeaderContent::Bytes(inner) => copy_bytes(inner),
            HeaderContent::Text(inner) => copy_bytes(inner.as_str().as_bytes()),
            HeaderContent::Boolean(inner) => if *inner {
                copy_bytes("true".as_bytes())
            } else {
                copy_bytes("false".as_bytes())
            },
            HeaderContent::Number(inner) => usize_be_bytes(*inner),
            HeaderContent::List(inner) => {
                let mut bytes: Vec<u8> = Vec::new();
                let mut k: usize = 0;
                while k < inner.len()
                    invariant
                        *self == HeaderContent::List(*inner),
                        k <= inner@.len(),
                        bytes@ == list_bytes(inner@.take(k as int)),
                    decreases inner@.len() - k,
                {
                    assert(decreases_to!(*self => (*self)->List_0));
                    assert(decreases_to!(*inner => inner@));
                    assert(decreases_to!(inner@ => inner@[k as int]));
                    assert(decreases_to!(*self => inner@[k as int]));
                    let mut b = inner[k].as_bytes();
                    bytes.append(&mut b);
                    assert(inner@.take(k + 1).drop_last() =~= inner@.take(k as int));
                    k += 1;
                }
                assert(inner@.take(inner@.len() as int) =~= inner@);
                bytes
            },
        }
    }
}

/// The bytes of a number, the highest first, as `usize::to_be_bytes` gives them.
fn usize_be_bytes(n: usize) -> (r: Vec<u8>)
    ensures
        r@ == usize_be(n),
{
    let b = be_bytes(n as u64);
    if usize::BITS == 64 {
        b
    } else {
        let mut r: Vec<u8> = Vec::new();
        let mut k: usize = 4;
        while k < 8
            invariant
                4 <= k <= 8,
                b@ == be8(n as u64),
                r@ == be8(n as u64).subrange(4, k as int),
            decreases 8 - k,
        {
            r.push(b[k]);
            k += 1;
            assert(r@ =~= be8(n as u64).subrange(4, k as int));
        }
        r
    }
}

// ---------------------------------------------------------------------------
// Headers
// ---------------------------------------------------------------------------

pub struct Header<'a>(pub HeaderKey, pub HeaderContent<'a>);

/// The line a header is written as: its name, `": "` and its content.
pub open spec fn header_text<'a>(h: Header<'a>) -> Seq<char> {
    key_name(h.0) + ": "@ + content_text(h.1)
}

/// The place of the first `": "` in a text at or after `from`, or the text's length if there
/// is none.
pub open spec fn sep_index(s: Seq<char>, from: int) -> int
    decreases s.len() - from,
{
    if from < 0 || from + 1 >= s.len() {
        s.len() as int
    } else if s[from] == ':' && s[from + 1] == ' ' {
        from
    } else {
        sep_index(s, from + 1)
    }
}

/// The text up to the first `": "`, or all of it.
pub open spec fn before_sep(s: Seq<char>) -> Seq<char> {
    s.take(sep_index(s, 0))
}

/// The text after the first `": "`.
pub open spec fn after_sep(s: Seq<char>) -> Seq<char> {
    s.skip(sep_index(s, 0) + 2)
}

/// The place of the first `": "` in a text, or its length if there is none.
fn find_sep(s: &str) -> (r: usize)
    ensures
        r == sep_index(s@, 0),
{
    let n = s.unicode_len();
    if n == 0 {
        return 0;
    }
    let mut i: usize = 0;
    while i < n - 1
        invariant
            n == s@.len(),
            0 < n,
            i <= n - 1,
            sep_index(s@, 0) == sep_index(s@, i as int),
        decreases n - i,
    {
        if s.get_char(i) == ':' && s.get_char(i + 1) == ' ' {
            return i;
        }
        i += 1;
    }
    n
}

/// A `": "` found is inside the text.
proof fn lemma_sep_index(s: Seq<char>, from: int)
    requires
        0 <= from,
    ensures
        sep_index(s, from) == s.len() || (from <= sep_index(s, from) && sep_index(s, from) + 1
            < s.len()),
    decreases s.len() - from,
{
    if from + 1 < s.len() && !(s[from] == ':' && s[from + 1] == ' ') {
        lemma_sep_index(s, from + 1);
    }
}

impl<'a> Header<'a> {
    /// Reads a header line: the name before the first `": "`, and as text what follows it up
    /// to the next `": "` or the end.
    pub fn from_line(value: String) -> (r: Header<'a>)
        requires
            sep_index(value@, 0) < value@.len(),
        ensures
            match standard_key(before_sep(value@)) {
                Some(k) => r.0 == k,
                None => r.0 matches HeaderKey::Other(t) && t@ == before_sep(value@),
            },
            r.1 matches HeaderContent::Text(t) && t@ == before_sep(after_sep(value@)),
    {
        let s = value.as_str();
        let n = s.unicode_len();
        let i = find_sep(s);
        proof {
            lemma_sep_index(value@, 0);
        }
        let key = HeaderKey::from_name(s.substring_char(0, i));
        let rest = s.substring_char(i + 2, n);
        let j = find_sep(rest);
        proof {
            lemma_sep_index(rest@, 0);
        }
        let text = rest.substring_char(0, j);
        Header(key, HeaderContent::Text(text.to_owned()))
    }

    /// The line the header is written as.
    pub fn to_string(&self) -> (r: String)
        ensures
            r@ == header_text(*self),
    {
        let mut s = self.0.to_string();
        push_str(&mut s, ": ");
        let c = self.1.to_string();
        push_str(&mut s, c.as_str());
        s
    }

    /// The bytes of the line the header is written as.
    pub fn as_bytes(&self) -> (r: Vec<u8>)
        ensures
            r@ == utf8(header_text(*self)),
    {
        let s = self.to_string();
        copy_bytes(s.as_str().as_bytes())
    }
}

// ---------------------------------------------------------------------------
// Versions, requests and responses
// ---------------------------------------------------------------------------

#[derive(Clone, Copy)]
pub struct Version(pub u8, pub u8);

/// The start of a status line: `"HTTP/"`, the version, and a space.
pub open spec fn version_text(v: Version) -> Seq<char> {
    "HTTP/"@ + decimal(v.0 as nat) + "."@ + decimal(v.1 as nat) + " "@
}

impl Version {
    /// The bytes of the start of a status line.
    pub fn as_bytes(&self) -> (r: Vec<u8>)
        ensures
            r@ == utf8(version_text(*self)),
    {
        let mut s = String::new();
        push_str(&mut s, "HTTP/");
        push_decimal(&mut s, self.0 as usize);
        push_str(&mut s, ".");
        push_decimal(&mut s, self.1 as usize);
        push_str(&mut s, " ");
        copy_bytes(s.as_str().as_bytes())
    }
}

/// `Rc::clone`: another handle to the same text.
#[verifier::external_body]
fn share_text(p: &Rc<str>) -> (r: Rc<str>)
    ensures
        r == *p,
{
    p.clone()
}

/// A header with its content set to a length, if it is a `Content-Length` header.
pub open spec fn with_length<'a>(h: Header<'a>, len: usize) -> Header<'a> {
    if h.0 is ContentLength {
        Header(HeaderKey::ContentLength, HeaderContent::Number(len))
    } else {
        h
    }
}

/// Headers after their content was replaced by one of the given length.
pub open spec fn set_lengths<'a>(hs: Seq<Header<'a>>, len: usize) -> Seq<Header<'a>> {
    hs.map_values(|h: Header<'a>| with_length(h, len))
}

/// Sets every `Content-Length` header to the given length.
fn set_content_length<'a>(headers: &mut Vec<Header<'a>>, len: usize)
    ensures
        final(headers)@ == set_lengths(old(headers)@, len),
{
    let mut k: usize = 0;
    while k < headers.len()
        invariant
            k <= headers@.len(),
            headers@.len() == old(headers)@.len(),
            forall|i: int| 0 <= i < k ==> headers@[i] == with_length(old(headers)@[i], len),
            forall|i: int| k <= i < headers@.len() ==> headers@[i] == old(headers)@[i],
        decreases headers@.len() - k,
    {
        if let HeaderKey::ContentLength = headers[k].0 {
            headers.set(k, Header(HeaderKey::ContentLength, HeaderContent::Number(len)));
        }
        k += 1;
    }
    assert(headers@ =~= set_lengths(old(headers)@, len));
}

pub struct Request<'a> {
    method: Method,
    path: Rc<str>,
    version: Version,
    headers: Vec<Header<'a>>,
    content: &'a [u8],
}

impl<'a> Request<'a> {
    pub closed spec fn spec_method(&self) -> Method {
        self.method
    }

    pub closed spec fn spec_path(&self) -> Rc<str> {
        self.path
    }

    pub closed spec fn spec_version(&self) -> Version {
        self.version
    }

    pub closed spec fn spec_headers(&self) -> Seq<Header<'a>> {
        self.headers@
    }

    pub closed spec fn spec_content(&self) -> &'a [u8] {
        self.content
    }

    /// A request made of its parts.
    pub fn new(
        method: Method,
        path: Rc<str>,
        version: Version,
        headers: Vec<Header<'a>>,
        content: &'a [u8],
    ) -> (r: Request<'a>)
        ensures
            r.spec_method() == method,
            r.spec_path() == path,
            r.spec_version() == version,
            r.spec_headers() == headers@,
            r.spec_content() == content,
    {
        Request { method, path, version, headers, content }
    }

    pub fn method(&self) -> (r: Method)
        ensures
            r == self.spec_method(),
    {
        self.method.clone()
    }

    pub fn path(&self) -> (r: Rc<str>)
        ensures
            r == self.spec_path(),
    {
        share_text(&self.path)
    }

    pub fn version(&self) -> (r: Version)
        ensures
            r == self.spec_version(),
    {
        self.version
    }

    pub fn headers(&self) -> (r: &Vec<Header<'a>>)
        ensures
            r@ == self.spec_headers(),
    {
        &self.headers
    }

    pub fn headers_mut(&mut self) -> (r: &mut Vec<Header<'a>>)
        ensures
            r@ == old(self).spec_headers(),
            final(self).spec_headers() == final(r)@,
            final(self).spec_method() == old(self).spec_method(),
            final(self).spec_path() == old(self).spec_path(),
            final(self).spec_version() == old(self).spec_version(),
            final(self).spec_content() == old(self).spec_content(),
    {
        &mut self.headers
    }

    pub fn content(&self) -> (r: &'a [u8])
        ensures
            r == self.spec_content(),
    {
        self.content
    }

    /// Sets the content, and every `Content-Length` header to its length.
    pub fn set_content(&mut self, content: &'a [u8])
        ensures
            final(self).spec_content() == content,
            final(self).spec_headers() == set_lengths(old(self).spec_headers(), content@.len() as usize),
            final(self).spec_method() == old(self).spec_method(),
            final(self).spec_path() == old(self).spec_path(),
            final(self).spec_version() == old(self).spec_version(),
    {
        let len = content.len();
        self.content = content;
        set_content_length(&mut self.headers, len);
    }
}

pub struct Response<'a> {
    version: Version,
    code: HttpCode,
    headers: Vec<Header<'a>>,
    content: &'a [u8],
}

/// A response as its parts.
pub struct ResponseView<'a> {
    pub version: Version,
    pub code: HttpCode,
    pub headers: Seq<Header<'a>>,
    pub content: Seq<u8>,
}

impl<'a> View for Response<'a> {
    type V = ResponseView<'a>;

    closed spec fn view(&self) -> ResponseView<'a> {
        ResponseView {
            version: self.version,
            code: self.code,
            headers: self.headers@,
            content: self.content@,
        }
    }
}

/// The bytes of the header lines: each one's line and `"\r\n"`.
pub open spec fn headers_bytes<'a>(hs: Seq<Header<'a>>) -> Seq<u8>
    decreases hs.len(),
{
    if hs.len() == 0 {
        Seq::empty()
    } else {
        headers_bytes(hs.drop_last()) + utf8(header_text(hs.last())) + seq![13u8, 10u8]
    }
}

/// The bytes a response is sent as: the status line, the header lines, an empty line and the
/// content.
pub open spec fn response_bytes<'a>(r: ResponseView<'a>) -> Seq<u8> {
    utf8(version_text(r.version)) + utf8(code_text(r.code)) + seq![13u8, 10u8] + headers_bytes(
        r.headers,
    ) + seq![13u8, 10u8] + r.content
}

impl<'a> Response<'a> {
    pub fn version(&self) -> (r: Version)
        ensures
            r == self@.version,
    {
        self.version
    }

    pub fn http_code(&self) -> (r: HttpCode)
        ensures
            r == self@.code,
    {
        self.code
    }

    pub fn headers(&mut self) -> (r: &mut Vec<Header<'a>>)
        ensures
            r@ == old(self)@.headers,
            final(self)@ == (ResponseView { headers: final(r)@, ..old(self)@ }),
    {
        &mut self.headers
    }

    pub fn content(&self) -> (r: &'a [u8])
        ensures
            r@ == self@.content,
    {
        self.content
    }

    /// Sets the content, and every `Content-Length` header to its length.
    pub fn set_content(&mut self, content: &'a [u8])
        ensures
            final(self)@ == (ResponseView {
                content: content@,
                headers: set_lengths(old(self)@.headers, content@.len() as usize),
                ..old(self)@
            }),
    {
        let len = content.len();
        self.content = content;
        set_content_length(&mut self.headers, len);
    }

    pub fn add_header(&mut self, header: Header<'a>)
        ensures
            final(self)@ == (ResponseView { headers: old(self)@.headers.push(header), ..old(self)@ }),
    {
        self.headers.push(header);
    }

    /// Removes the header at `index`; the last header takes its place.
    pub fn rm_header(&mut self, index: usize)
        requires
            index < old(self)@.headers.len(),
        ensures
            final(self)@ == (ResponseView {
                headers: old(self)@.headers.update(index as int, old(self)@.headers.last()).drop_last(),
                ..old(self)@
            }),
    {
        self.headers.swap_remove(index);
    }

    /// The bytes the response is sent as.
    pub fn as_bytes(&self) -> (r: Vec<u8>)
        ensures
            r@ == response_bytes(self@),
    {
        let mut out = self.version.as_bytes();
        let mut code = self.code.as_bytes();
        out.append(&mut code);
        out.push(13u8);
        out.push(10u8);
        let mut k: usize = 0;
        let ghost start = out@;
        while k < self.headers.len()
            invariant
                k <= self.headers@.len(),
                out@ == start + headers_bytes(self.headers@.take(k as int)),
            decreases self.headers@.len() - k,
        {
            let mut line = self.headers[k].as_bytes();
            out.append(&mut line);
            out.push(13u8);
            out.push(10u8);
            assert(self.headers@.take(k + 1).drop_last() =~= self.headers@.take(k as int));
            k += 1;
        }
        assert(self.headers@.take(self.headers@.len() as int) =~= self.headers@);
        out.push(13u8);
        out.push(10u8);
        let mut content = copy_bytes(self.content);
        out.append(&mut content);
        out
    }
}

impl<'a> Default for Response<'a> {
    /// A plain text response with the content `"pog"`.
    fn default() -> (r: Self)
        ensures
            r@.version == Version(1, 1),
            r@.code == HttpCode::OK,
            r@.headers.len() == 2,
            r@.headers[0].0 == HeaderKey::ContentType,
            r@.headers[0].1 matches HeaderContent::Text(t) && t@ == "text/plain"@,
            r@.headers[1] == Header(HeaderKey::ContentLength, HeaderContent::Number(3)),
            r@.content == seq![112u8, 111u8, 103u8],
    {
        let headers: Vec<Header> = vec![
            Header(HeaderKey::ContentType, HeaderContent::Text("text/plain".to_owned())),
            Header(HeaderKey::ContentLength, HeaderContent::Number(3)),
        ];
        let content: &[u8] = &[112u8, 111u8, 103u8];
        Response { version: Version(1, 1), code: HttpCode::OK, headers, content }
    }
}

impl<'a> From<&'a str> for Response<'a> {
    /// The default response with the text as its content.
    fn from(value: &'a str) -> (r: Response<'a>)
        ensures
            r@.version == Version(1, 1),
            r@.code == HttpCode::OK,
            r@.headers.len() == 2,
            r@.headers[0].0 == HeaderKey::ContentType,
            r@.headers[0].1 matches HeaderContent::Text(t) && t@ == "text/plain"@,
            r@.headers[1] == Header(HeaderKey::ContentLength, HeaderContent::Number(3)),
            r@.content == utf8(value@),
    {
        let mut packet = Response::default();
        packet.content = value.as_bytes();
        packet
    }
}

impl<'a> vstd::std_specs::convert::FromSpecImpl<&'a str> for Response<'a> {
    /// The response holds a new string, which a spec function cannot name, so the contract of
    /// `from` itself says what it returns.
    open spec fn obeys_from_spec() -> bool {
        false
    }

    open spec fn from_spec(v: &'a str) -> Response<'a> {
        arbitrary()
    }
}

impl<'a> From<&'a [u8]> for Response<'a> {
    /// The default response with the bytes as its content.
    fn from(value: &'a [u8]) -> (r: Response<'a>)
        ensures
            r@.version == Version(1, 1),
            r@.code == HttpCode::OK,
            r@.headers.len() == 2,
            r@.headers[0].0 == HeaderKey::ContentType,
            r@.headers[0].1 matches HeaderContent::Text(t) && t@ == "text/plain"@,
            r@.headers[1] == Header(HeaderKey::ContentLength, HeaderContent::Number(3)),
            r@.content == value@,
    {
        let mut packet = Response::default();
        packet.content = value;
        packet
    }
}

impl<'a> vstd::std_specs::convert::FromSpecImpl<&'a [u8]> for Response<'a> {
    /// The response holds a new string, which a spec function cannot name, so the contract of
    /// `from` itself says what it returns.
    open spec fn obeys_from_spec() -> bool {
        false
    }

    open spec fn from_spec(v: &'a [u8]) -> Response<'a> {
        arbitrary()
    }
}

impl<'a> From<Request<'a>> for Response<'a> {
    /// An `OK` response with the request's version, headers and content.
    fn from(value: Request<'a>) -> (r: Response<'a>)
        ensures
            r@ == (ResponseView {
                version: value.spec_version(),
                code: HttpCode::OK,
                headers: value.spec_headers(),
                content: value.spec_content()@,
            }),
    {
        Response {
            version: value.version,
            code: HttpCode::OK,
            headers: value.headers,
            content: value.content,
        }
    }
}

impl<'a> vstd::std_specs::convert::FromSpecImpl<Request<'a>> for Response<'a> {
    open spec fn obeys_from_spec() -> bool {
        true
    }

    closed spec fn from_spec(v: Request<'a>) -> Response<'a> {
        Response { version: v.version, code: HttpCode::OK, headers: v.headers, content: v.content }
    }
}

/// Every status code is read back from its number.
pub proof fn lemma_code_round_trip(c: HttpCode)
    ensures
        code_of(code_number(c)) == Some(c),
{
}

/// A key written by its name is read back as itself.
pub proof fn lemma_key_round_trip(k: HeaderKey)
    requires
        key_wf(k),
    ensures
        k is Other ==> standard_key(key_name(k)) is None,
        !(k is Other) ==> standard_key(key_name(k)) == Some(k),
{
    reveal_strlit("Host");
    reveal_strlit("Connection");
    reveal_strlit("A-IM");
    reveal_strlit("Accept");
    reveal_strlit("Accept-Charset");
    reveal_strlit("Accept-Encoding");
    reveal_strlit("Accept-Language");
    reveal_strlit("Access-Control-Request-Method");
    reveal_strlit("Access-Control-Request-Headers");
    reveal_strlit("Authorization");
    reveal_strlit("Cache-Control");
    reveal_strlit("Content-Encoding");
    reveal_strlit("Content-Length");
    reveal_strlit("Content-MD5");
    reveal_strlit("Content-Type");
    reveal_strlit("Cookie");
    reveal_strlit("Date");
    reveal_strlit("Expect");
    reveal_strlit("Forwarded");
    reveal_strlit("From");
    reveal_strlit("HTTP2-Settings");
    reveal_strlit("If-Match");
    reveal_strlit("If-Modified-Since");
    reveal_strlit("If-None-Match");
    reveal_strlit("If-Unmodified-Since");
    reveal_strlit("Max-Forwards");
    reveal_strlit("Origin");
    reveal_strlit("Pragma");
    reveal_strlit("Prefer");
    reveal_strlit("Proxy-Authorization");
    reveal_strlit("Range");
    reveal_strlit("Referer");
    reveal_strlit("TE");
    reveal_strlit("Trailer");
    reveal_strlit("Transfer-Encoding");
    reveal_strlit("User-Agent");
    reveal_strlit("Upgrade");
    reveal_strlit("Via");
    reveal_strlit("Warning");
    assert("Host"@.len() == 4);
    assert("Connection"@.len() == 10);
    assert("A-IM"@.len() == 4);
    assert("Accept"@.len() == 6);
    assert("Accept-Charset"@.len() == 14);
    assert("Accept-Encoding"@.len() == 15);
    assert("Accept-Language"@.len() == 15);
    assert("Access-Control-Request-Method"@.len() == 29);
    assert("Access-Control-Request-Headers"@.len() == 30);
    assert("Authorization"@.len() == 13);
    assert("Cache-Control"@.len() == 13);
    assert("Content-Encoding"@.len() == 16);
    assert("Content-Length"@.len() == 14);
    assert("Content-MD5"@.len() == 11);
    assert("Content-Type"@.len() == 12);
    assert("Cookie"@.len() == 6);
    assert("Date"@.len() == 4);
    assert("Expect"@.len() == 6);
    assert("Forwarded"@.len() == 9);
    assert("From"@.len() == 4);
    assert("HTTP2-Settings"@.len() == 14);
    assert("If-Match"@.len() == 8);
    assert("If-Modified-Since"@.len() == 17);
    assert("If-None-Match"@.len() == 13);
    assert("If-Unmodified-Since"@.len() == 19);
    assert("Max-Forwards"@.len() == 12);
    assert("Origin"@.len() == 6);
    assert("Pragma"@.len() == 6);
    assert("Prefer"@.len() == 6);
    assert("Proxy-Authorization"@.len() == 19);
    assert("Range"@.len() == 5);
    assert("Referer"@.len() == 7);
    assert("TE"@.len() == 2);
    assert("Trailer"@.len() == 7);
    assert("Transfer-Encoding"@.len() == 17);
    assert("User-Agent"@.len() == 10);
    assert("Upgrade"@.len() == 7);
    assert("Via"@.len() == 3);
    assert("Warning"@.len() == 7);
    match k {
        HeaderKey::Host => { assert(standard_key("Host"@) == Some(HeaderKey::Host)); },
        HeaderKey::Connection => { assert(standard_key("Connection"@) == Some(HeaderKey::Connection)); },
        HeaderKey::AIM => { assert("A-IM"@[0] == 'A' && "Host"@[0] == 'H'); assert(standard_key("A-IM"@) == Some(HeaderKey::AIM)); },
        HeaderKey::Accept => { assert(standard_key("Accept"@) == Some(HeaderKey::Accept)); },
        HeaderKey::AcceptCharset => { assert(standard_key("Accept-Charset"@) == Some(HeaderKey::AcceptCharset)); },
        HeaderKey::AcceptEncoding => { assert(standard_key("Accept-Encoding"@) == Some(HeaderKey::AcceptEncoding)); },
        HeaderKey::AcceptLanguage => { assert("Accept-Language"@[7] == 'L' && "Accept-Encoding"@[7] == 'E'); assert(standard_key("Accept-Language"@) == Some(HeaderKey::AcceptLanguage)); },
        HeaderKey::AccessControlRequestMethod => { assert(standard_key("Access-Control-Request-Method"@) == Some(HeaderKey::AccessControlRequestMethod)); },
        HeaderKey::AccessControlRequestHeaders => { assert(standard_key("Access-Control-Request-Headers"@) == Some(HeaderKey::AccessControlRequestHeaders)); },
        HeaderKey::Authorization => { assert(standard_key("Authorization"@) == Some(HeaderKey::Authorization)); },
        HeaderKey::CacheControl => { assert("Cache-Control"@[0] == 'C' && "Authorization"@[0] == 'A'); assert(standard_key("Cache-Control"@) == Some(HeaderKey::CacheControl)); },
        HeaderKey::ContentEncoding => { assert(standard_key("Content-Encoding"@) == Some(HeaderKey::ContentEncoding)); },
        HeaderKey::ContentLength => { assert("Content-Length"@[0] == 'C' && "Accept-Charset"@[0] == 'A'); assert(standard_key("Content-Length"@) == Some(HeaderKey::ContentLength)); },
        HeaderKey::ContentMD5 => { assert(standard_key("Content-MD5"@) == Some(HeaderKey::ContentMD5)); },
        HeaderKey::ContentType => { assert(standard_key("Content-Type"@) == Some(HeaderKey::ContentType)); },
        HeaderKey::Cookie => { assert("Cookie"@[0] == 'C' && "Accept"@[0] == 'A'); assert(standard_key("Cookie"@) == Some(HeaderKey::Cookie)); },
        HeaderKey::Date => { assert("Date"@[0] == 'D' && "Host"@[0] == 'H'); assert("Date"@[0] == 'D' && "A-IM"@[0] == 'A'); assert(standard_key("Date"@) == Some(HeaderKey::Date)); },
        HeaderKey::Expect => { assert("Expect"@[0] == 'E' && "Accept"@[0] == 'A'); assert("Expect"@[0] == 'E' && "Cookie"@[0] == 'C'); assert(standard_key("Expect"@) == Some(HeaderKey::Expect)); },
        HeaderKey::Forwarded => { assert(standard_key("Forwarded"@) == Some(HeaderKey::Forwarded)); },
        HeaderKey::From => { assert("From"@[0] == 'F' && "Host"@[0] == 'H'); assert("From"@[0] == 'F' && "A-IM"@[0] == 'A'); assert("From"@[0] == 'F' && "Date"@[0] == 'D'); assert(standard_key("From"@) == Some(HeaderKey::From)); },
        HeaderKey::HTTP2Settings => { assert("HTTP2-Settings"@[0] == 'H' && "Accept-Charset"@[0] == 'A'); assert("HTTP2-Settings"@[0] == 'H' && "Content-Length"@[0] == 'C'); assert(standard_key("HTTP2-Settings"@) == Some(HeaderKey::HTTP2Settings)); },
        HeaderKey::IfMatch => { assert(standard_key("If-Match"@) == Some(HeaderKey::IfMatch)); },
        HeaderKey::IfModifiedSince => { assert(standard_key("If-Modified-Since"@) == Some(HeaderKey::IfModifiedSince)); },
        HeaderKey::IfNoneMatch => { assert("If-None-Match"@[0] == 'I' && "Authorization"@[0] == 'A'); assert("If-None-Match"@[0] == 'I' && "Cache-Control"@[0] == 'C'); assert(standard_key("If-None-Match"@) == Some(HeaderKey::IfNoneMatch)); },
        HeaderKey::IfUnmodifiedSince => { assert(standard_key("If-Unmodified-Since"@) == Some(HeaderKey::IfUnmodifiedSince)); },
        HeaderKey::MaxForwards => { assert("Max-Forwards"@[0] == 'M' && "Content-Type"@[0] == 'C'); assert(standard_key("Max-Forwards"@) == Some(HeaderKey::MaxForwards)); },
        HeaderKey::Origin => { assert("Origin"@[0] == 'O' && "Accept"@[0] == 'A'); assert("Origin"@[0] == 'O' && "Cookie"@[0] == 'C'); assert("Origin"@[0] == 'O' && "Expect"@[0] == 'E'); assert(standard_key("Origin"@) == Some(HeaderKey::Origin)); },
        HeaderKey::Pragma => { assert("Pragma"@[0] == 'P' && "Accept"@[0] == 'A'); assert("Pragma"@[0] == 'P' && "Cookie"@[0] == 'C'); assert("Pragma"@[0] == 'P' && "Expect"@[0] == 'E'); assert("Pragma"@[0] == 'P' && "Origin"@[0] == 'O'); assert(standard_key("Pragma"@) == Some(HeaderKey::Pragma)); },
        HeaderKey::Prefer => { assert("Prefer"@[0] == 'P' && "Accept"@[0] == 'A'); assert("Prefer"@[0] == 'P' && "Cookie"@[0] == 'C'); assert("Prefer"@[0] == 'P' && "Expect"@[0] == 'E'); assert("Prefer"@[0] == 'P' && "Origin"@[0] == 'O'); assert("Prefer"@[2] == 'e' && "Pragma"@[2] == 'a'); assert(standard_key("Prefer"@) == Some(HeaderKey::Prefer)); },
        HeaderKey::ProxyAuthorization => { assert("Proxy-Authorization"@[0] == 'P' && "If-Unmodified-Since"@[0] == 'I'); assert(standard_key("Proxy-Authorization"@) == Some(HeaderKey::ProxyAuthorization)); },
        HeaderKey::Range => { assert(standard_key("Range"@) == Some(HeaderKey::Range)); },
        HeaderKey::Referer => { assert(standard_key("Referer"@) == Some(HeaderKey::Referer)); },
        HeaderKey::TE => { assert(standard_key("TE"@) == Some(HeaderKey::TE)); },
        HeaderKey::Trailer => { assert("Trailer"@[0] == 'T' && "Referer"@[0] == 'R'); assert(standard_key("Trailer"@) == Some(HeaderKey::Trailer)); },
        HeaderKey::TransferEncoding => { assert("Transfer-Encoding"@[0] == 'T' && "If-Modified-Since"@[0] == 'I'); assert(standard_key("Transfer-Encoding"@) == Some(HeaderKey::TransferEncoding)); },
        HeaderKey::UserAgent => { assert("User-Agent"@[0] == 'U' && "Connection"@[0] == 'C'); assert(standard_key("User-Agent"@) == Some(HeaderKey::UserAgent)); },
        HeaderKey::Upgrade => { assert("Upgrade"@[0] == 'U' && "Referer"@[0] == 'R'); assert("Upgrade"@[0] == 'U' && "Trailer"@[0] == 'T'); assert(standard_key("Upgrade"@) == Some(HeaderKey::Upgrade)); },
        HeaderKey::Via => { assert(standard_key("Via"@) == Some(HeaderKey::Via)); },
        HeaderKey::Warning => { assert("Warning"@[0] == 'W' && "Referer"@[0] == 'R'); assert("Warning"@[0] == 'W' && "Trailer"@[0] == 'T'); assert("Warning"@[0] == 'W' && "Upgrade"@[0] == 'U'); assert(standard_key("Warning"@) == Some(HeaderKey::Warning)); },
        HeaderKey::Other(_) => {},
    }
}

/// A method written by its name is read back as itself.
pub proof fn lemma_method_round_trip(m: Method)
    requires
        method_wf(m),
    ensures
        m is Other ==> standard_method(method_name(m)) is None,
        !(m is Other) ==> standard_method(method_name(m)) == Some(m),
{
    reveal_strlit("GET");
    reveal_strlit("POST");
    reveal_strlit("PUT");
    reveal_strlit("DELETE");
    reveal_strlit("HEAD");
    reveal_strlit("CONNECT");
    reveal_strlit("OPTIONS");
    reveal_strlit("TRACE");
    reveal_strlit("PATCH");
    assert("GET"@.len() == 3);
    assert("POST"@.len() == 4);
    assert("PUT"@.len() == 3);
    assert("DELETE"@.len() == 6);
    assert("HEAD"@.len() == 4);
    assert("CONNECT"@.len() == 7);
    assert("OPTIONS"@.len() == 7);
    assert("TRACE"@.len() == 5);
    assert("PATCH"@.len() == 5);
    match m {
        Method::Get => { assert(standard_method("GET"@) == Some(Method::Get)); },
        Method::Post => { assert(standard_method("POST"@) == Some(Method::Post)); },
        Method::Put => { assert("PUT"@[0] == 'P' && "GET"@[0] == 'G'); assert(standard_method("PUT"@) == Some(Method::Put)); },
        Method::Delete => { assert(standard_method("DELETE"@) == Some(Method::Delete)); },
        Method::Head => { assert("HEAD"@[0] == 'H' && "POST"@[0] == 'P'); assert(standard_method("HEAD"@) == Some(Method::Head)); },
        Method::Connect => { assert(standard_method("CONNECT"@) == Some(Method::Connect)); },
        Method::Options => { assert("OPTIONS"@[0] == 'O' && "CONNECT"@[0] == 'C'); assert(standard_method("OPTIONS"@) == Some(Method::Options)); },
        Method::Trace => { assert(standard_method("TRACE"@) == Some(Method::Trace)); },
        Method::Patch => { assert("PATCH"@[0] == 'P' && "TRACE"@[0] == 'T'); assert(standard_method("PATCH"@) == Some(Method::Patch)); },
        Method::Other(_) => {},
    }
}

/// After `set_content`, every `Content-Length` header holds the new length as a number, and
/// every other header is left as it was.
pub proof fn lemma_set_lengths<'a>(hs: Seq<Header<'a>>, len: usize)
    ensures
        set_lengths(hs, len).len() == hs.len(),
        forall|i: int|
            0 <= i < hs.len() ==> {
                let h = #[trigger] set_lengths(hs, len)[i];
                &&& h.0 == hs[i].0
                &&& hs[i].0 is ContentLength ==> h.1 == HeaderContent::Number(len)
                &&& !(hs[i].0 is ContentLength) ==> h == hs[i]
            },
{
}

/// The status line text of every code starts with the code's number and a space.
pub proof fn lemma_code_text_number(c: HttpCode)
    ensures
        code_text(c).len() > 4,
        code_text(c).take(3) == decimal(code_number(c) as nat),
        code_text(c)[3] == ' ',
{
    reveal_with_fuel(decimal, 3);
    match c {
        HttpCode::Continue => {
            reveal_strlit("100 Continue");
        },
        HttpCode::SwitchingProtocols => {
            reveal_strlit("101 Switching Protocols");
        },
        HttpCode::Processing => {
            reveal_strlit("102 Processing");
        },
        HttpCode::EarlyHints => {
            reveal_strlit("103 Early Hints");
        },
        HttpCode::OK => {
            reveal_strlit("200 OK");
        },
        HttpCode::Created => {
            reveal_strlit("201 Created");
        },
        HttpCode::Accepted => {
            reveal_strlit("202 Accepted");
        },
        HttpCode::NonAuthorativeInformation => {
            reveal_strlit("203 Non-Authorative Information");
        },
        HttpCode::NoContent => {
            reveal_strlit("204 No Content");
        },
        HttpCode::ResetContent => {
            reveal_strlit("205 Reset Content");
        },
        HttpCode::PartialContent => {
            reveal_strlit("206 Partial Content");
        },
        HttpCode::MultiStatus => {
            reveal_strlit("207 Multi-Status");
        },
        HttpCode::AlreadyReported => {
            reveal_strlit("208 Already Reported");
        },
        HttpCode::IMUsed => {
            reveal_strlit("226 IM Used");
        },
        HttpCode::MultipleChoices => {
            reveal_strlit("300 Multiple Choices");
        },
        HttpCode::MovedPermanently => {
            reveal_strlit("301 Moved Permanently");
        },
        HttpCode::Found => {
            reveal_strlit("302 Found");
        },
        HttpCode::SeeOther => {
            reveal_strlit("303 See Other");
        },
        HttpCode::NotModified => {
            reveal_strlit("304 Not Modified");
        },
        HttpCode::UseProxy => {
            reveal_strlit("305 Use Proxy");
        },
        HttpCode::SwitchProxy => {
            reveal_strlit("306 Switch Proxy");
        },
        HttpCode::TemporaryRedirect => {
            reveal_strlit("307 Temporary Redirect");
        },
        HttpCode::PermanentRedirect => {
            reveal_strlit("308 Permanent Redirect");
        },
        HttpCode::BadRequest => {
            reveal_strlit("400 Bad Request");
        },
        HttpCode::Unauthorized => {
            reveal_strlit("401 Unauthorized");
        },
        HttpCode::PaymentRequired => {
            reveal_strlit("402 Payment Required");
        },
        HttpCode::Forbidden => {
            reveal_strlit("403 Forbidden");
        },
        HttpCode::NotFound => {
            reveal_strlit("404 Not Found");
        },
        HttpCode::MethodNotAllowed => {
            reveal_strlit("405 Method Not Allowed");
        },
        HttpCode::NotAcceptable => {
            reveal_strlit("406 Method Not Acceptable");
        },
        HttpCode::ProxyAuthenticationRequired => {
            reveal_strlit("407 Proxy Authentication Required");
        },
        HttpCode::RequestTimeOut => {
            reveal_strlit("408 Request Timeout");
        },
        HttpCode::Conflict => {
            reveal_strlit("409 Conflict");
        },
        HttpCode::Gone => {
            reveal_strlit("410 Gone");
        },
        HttpCode::LengthRequired => {
            reveal_strlit("411 Length Required");
        },
        HttpCode::PreconditionFailed => {
            reveal_strlit("412 Precondition Failed");
        },
        HttpCode::PayloadTooLarge => {
            reveal_strlit("413 Payload Too Large");
        },
        HttpCode::URITooLong => {
            reveal_strlit("414 URI Too Long");
        },
        HttpCode::UnsupportedMediaType => {
            reveal_strlit("415 Unsupported Media Type");
        },
        HttpCode::RangeNotSatisfiable => {
            reveal_strlit("416 Range Not Satisfiable");
        },
        HttpCode::ExpectationFailed => {
            reveal_strlit("417 Expectation Failed");
        },
        HttpCode::MisdirectedRequest => {
            reveal_strlit("421 Misdirected Request");
        },
        HttpCode::UnprocessableRequest => {
            reveal_strlit("422 Unprocessable Request");
        },
        HttpCode::Locked => {
            reveal_strlit("423 Locked");
        },
        HttpCode::FailedDependency => {
            reveal_strlit("424 Failed Dependency");
        },
        HttpCode::TooEarly => {
            reveal_strlit("425 Too Early");
        },
        HttpCode::UpgradeRequired => {
            reveal_strlit("426 Upgrade Required");
        },
        HttpCode::PreconditionRequired => {
            reveal_strlit("428 Precondition Required");
        },
        HttpCode::TooManyRequests => {
            reveal_strlit("429 Too Many Requests");
        },
        HttpCode::RequestHeaderFieldsTooLarge => {
            reveal_strlit("431 Request Header Fields Too Large");
        },
        HttpCode::UnavailableForLegalReasons => {
            reveal_strlit("451 Unavailable For Legal Reasons");
        },
        HttpCode::InternalServerError => {
            reveal_strlit("500 Internal Server Error");
        },
        HttpCode::NotImplemented => {
            reveal_strlit("501 Not Implemented");
        },
        HttpCode::BadGateway => {
            reveal_strlit("502 Bad Gateway");
        },
        HttpCode::ServiceUnavailable => {
            reveal_strlit("503 Service Unavailable");
        },
        HttpCode::GatewayTimeout => {
            reveal_strlit("504 Gateway Timeout");
        },
        HttpCode::HttpVersionNotSupported => {
            reveal_strlit("505 HTTP Version Not Supported");
        },
        HttpCode::VariantAlsoNegotiates => {
            reveal_strlit("506 Variant Also Negotiates");
        },
        HttpCode::InsufficientStorage => {
            reveal_strlit("507 Insufficient Storage");
        },
        HttpCode::LoopDetected => {
            reveal_strlit("508 Loop Detected");
        },
        HttpCode::NotExtended => {
            reveal_strlit("510 Not Extended");
        },
        HttpCode::NetworkAuthenticationRequired => {
            reveal_strlit("511 Network Authentication Required");
        },
    }
}


/// In `a + ": " + t`, where `a` holds no `": "`, the first `": "` is the one after `a`.
proof fn lemma_sep_after_name(a: Seq<char>, t: Seq<char>, from: int)
    requires
        0 <= from <= a.len(),
        sep_index(a, from) == a.len(),
    ensures
        sep_index(a + ": "@ + t, from) == a.len(),
    decreases a.len() - from,
{
    let line = a + ": "@ + t;
    reveal_strlit(": ");
    assert(line[a.len() as int] == ':');
    assert(line[a.len() as int + 1] == ' ');
    if from < a.len() {
        assert(line[from] == a[from]);
        if from + 1 < a.len() {
            assert(line[from + 1] == a[from + 1]);
        }
        lemma_sep_after_name(a, t, from + 1);
    }
}

/// A header line read back gives the name and the text it was written with, where neither
/// holds a `": "`.
pub proof fn lemma_header_line_round_trip<'a>(h: Header<'a>)
    requires
        h.1 is Text,
        key_wf(h.0),
        sep_index(key_name(h.0), 0) == key_name(h.0).len(),
        sep_index(content_text(h.1), 0) == content_text(h.1).len(),
    ensures
        sep_index(header_text(h), 0) < header_text(h).len(),
        before_sep(header_text(h)) == key_name(h.0),
        before_sep(after_sep(header_text(h))) == content_text(h.1),
        h.0 is Other ==> standard_key(before_sep(header_text(h))) is None,
        !(h.0 is Other) ==> standard_key(before_sep(header_text(h))) == Some(h.0),
{
    let a = key_name(h.0);
    let t = content_text(h.1);
    let line = header_text(h);
    reveal_strlit(": ");
    lemma_sep_after_name(a, t, 0);
    assert(line.take(a.len() as int) =~= a);
    assert(line.skip(a.len() as int + 2) =~= t);
    assert(t.take(t.len() as int) =~= t);
    lemma_key_round_trip(h.0);
}

/// Each standard header key is named by the header it stands for, and that name is read as that key: `Host` by "Host", `AcceptEncoding` by "Accept-Encoding", and so on for every key.
pub proof fn lemma_key_names()
    ensures
        key_name(HeaderKey::Host) == "Host"@,
        key_name(HeaderKey::Connection) == "Connection"@,
        key_name(HeaderKey::AIM) == "A-IM"@,
        key_name(HeaderKey::Accept) == "Accept"@,
        key_name(HeaderKey::AcceptCharset) == "Accept-Charset"@,
        key_name(HeaderKey::AcceptEncoding) == "Accept-Encoding"@,
        key_name(HeaderKey::AcceptLanguage) == "Accept-Language"@,
        key_name(HeaderKey::AccessControlRequestMethod) == "Access-Control-Request-Method"@,
        key_name(HeaderKey::AccessControlRequestHeaders) == "Access-Control-Request-Headers"@,
        key_name(HeaderKey::Authorization) == "Authorization"@,
        key_name(HeaderKey::CacheControl) == "Cache-Control"@,
        key_name(HeaderKey::ContentEncoding) == "Content-Encoding"@,
        key_name(HeaderKey::ContentLength) == "Content-Length"@,
        key_name(HeaderKey::ContentMD5) == "Content-MD5"@,
        key_name(HeaderKey::ContentType) == "Content-Type"@,
        key_name(HeaderKey::Cookie) == "Cookie"@,
        key_name(HeaderKey::Date) == "Date"@,
        key_name(HeaderKey::Expect) == "Expect"@,
        key_name(HeaderKey::Forwarded) == "Forwarded"@,
        key_name(HeaderKey::From) == "From"@,
        key_name(HeaderKey::HTTP2Settings) == "HTTP2-Settings"@,
        key_name(HeaderKey::IfMatch) == "If-Match"@,
        key_name(HeaderKey::IfModifiedSince) == "If-Modified-Since"@,
        key_name(HeaderKey::IfNoneMatch) == "If-None-Match"@,
        key_name(HeaderKey::IfUnmodifiedSince) == "If-Unmodified-Since"@,
        key_name(HeaderKey::MaxForwards) == "Max-Forwards"@,
        key_name(HeaderKey::Origin) == "Origin"@,
        key_name(HeaderKey::Pragma) == "Pragma"@,
        key_name(HeaderKey::Prefer) == "Prefer"@,
        key_name(HeaderKey::ProxyAuthorization) == "Proxy-Authorization"@,
        key_name(HeaderKey::Range) == "Range"@,
        key_name(HeaderKey::Referer) == "Referer"@,
        key_name(HeaderKey::TE) == "TE"@,
        key_name(HeaderKey::Trailer) == "Trailer"@,
        key_name(HeaderKey::TransferEncoding) == "Transfer-Encoding"@,
        key_name(HeaderKey::UserAgent) == "User-Agent"@,
        key_name(HeaderKey::Upgrade) == "Upgrade"@,
        key_name(HeaderKey::Via) == "Via"@,
        key_name(HeaderKey::Warning) == "Warning"@,
        standard_key("Host"@) == Some(HeaderKey::Host),
        standard_key("Connection"@) == Some(HeaderKey::Connection),
        standard_key("A-IM"@) == Some(HeaderKey::AIM),
        standard_key("Accept"@) == Some(HeaderKey::Accept),
        standard_key("Accept-Charset"@) == Some(HeaderKey::AcceptCharset),
        standard_key("Accept-Encoding"@) == Some(HeaderKey::AcceptEncoding),
        standard_key("Accept-Language"@) == Some(HeaderKey::AcceptLanguage),
        standard_key("Access-Control-Request-Method"@) == Some(HeaderKey::AccessControlRequestMethod),
        standard_key("Access-Control-Request-Headers"@) == Some(HeaderKey::AccessControlRequestHeaders),
        standard_key("Authorization"@) == Some(HeaderKey::Authorization),
        standard_key("Cache-Control"@) == Some(HeaderKey::CacheControl),
        standard_key("Content-Encoding"@) == Some(HeaderKey::ContentEncoding),
        standard_key("Content-Length"@) == Some(HeaderKey::ContentLength),
        standard_key("Content-MD5"@) == Some(HeaderKey::ContentMD5),
        standard_key("Content-Type"@) == Some(HeaderKey::ContentType),
        standard_key("Cookie"@) == Some(HeaderKey::Cookie),
        standard_key("Date"@) == Some(HeaderKey::Date),
        standard_key("Expect"@) == Some(HeaderKey::Expect),
        standard_key("Forwarded"@) == Some(HeaderKey::Forwarded),
        standard_key("From"@) == Some(HeaderKey::From),
        standard_key("HTTP2-Settings"@) == Some(HeaderKey::HTTP2Settings),
        standard_key("If-Match"@) == Some(HeaderKey::IfMatch),
        standard_key("If-Modified-Since"@) == Some(HeaderKey::IfModifiedSince),
        standard_key("If-None-Match"@) == Some(HeaderKey::IfNoneMatch),
        standard_key("If-Unmodified-Since"@) == Some(HeaderKey::IfUnmodifiedSince),
        standard_key("Max-Forwards"@) == Some(HeaderKey::MaxForwards),
        standard_key("Origin"@) == Some(HeaderKey::Origin),
        standard_key("Pragma"@) == Some(HeaderKey::Pragma),
        standard_key("Prefer"@) == Some(HeaderKey::Prefer),
        standard_key("Proxy-Authorization"@) == Some(HeaderKey::ProxyAuthorization),
        standard_key("Range"@) == Some(HeaderKey::Range),
        standard_key("Referer"@) == Some(HeaderKey::Referer),
        standard_key("TE"@) == Some(HeaderKey::TE),
        standard_key("Trailer"@) == Some(HeaderKey::Trailer),
        standard_key("Transfer-Encoding"@) == Some(HeaderKey::TransferEncoding),
        standard_key("User-Agent"@) == Some(HeaderKey::UserAgent),
        standard_key("Upgrade"@) == Some(HeaderKey::Upgrade),
        standard_key("Via"@) == Some(HeaderKey::Via),
        standard_key("Warning"@) == Some(HeaderKey::Warning),
{
    lemma_key_round_trip(HeaderKey::Host);
    lemma_key_round_trip(HeaderKey::Connection);
    lemma_key_round_trip(HeaderKey::AIM);
    lemma_key_round_trip(HeaderKey::Accept);
    lemma_key_round_trip(HeaderKey::AcceptCharset);
    lemma_key_round_trip(HeaderKey::AcceptEncoding);
    lemma_key_round_trip(HeaderKey::AcceptLanguage);
    lemma_key_round_trip(HeaderKey::AccessControlRequestMethod);
    lemma_key_round_trip(HeaderKey::AccessControlRequestHeaders);
    lemma_key_round_trip(HeaderKey::Authorization);
    lemma_key_round_trip(HeaderKey::CacheControl);
    lemma_key_round_trip(HeaderKey::ContentEncoding);
    lemma_key_round_trip(HeaderKey::ContentLength);
    lemma_key_round_trip(HeaderKey::ContentMD5);
    lemma_key_round_trip(HeaderKey::ContentType);
    lemma_key_round_trip(HeaderKey::Cookie);
    lemma_key_round_trip(HeaderKey::Date);
    lemma_key_round_trip(HeaderKey::Expect);
    lemma_key_round_trip(HeaderKey::Forwarded);
    lemma_key_round_trip(HeaderKey::From);
    lemma_key_round_trip(HeaderKey::HTTP2Settings);
    lemma_key_round_trip(HeaderKey::IfMatch);
    lemma_key_round_trip(HeaderKey::IfModifiedSince);
    lemma_key_round_trip(HeaderKey::IfNoneMatch);
    lemma_key_round_trip(HeaderKey::IfUnmodifiedSince);
    lemma_key_round_trip(HeaderKey::MaxForwards);
    lemma_key_round_trip(HeaderKey::Origin);
    lemma_key_round_trip(HeaderKey::Pragma);
    lemma_key_round_trip(HeaderKey::Prefer);
    lemma_key_round_trip(HeaderKey::ProxyAuthorization);
    lemma_key_round_trip(HeaderKey::Range);
    lemma_key_round_trip(HeaderKey::Referer);
    lemma_key_round_trip(HeaderKey::TE);
    lemma_key_round_trip(HeaderKey::Trailer);
    lemma_key_round_trip(HeaderKey::TransferEncoding);
    lemma_key_round_trip(HeaderKey::UserAgent);
    lemma_key_round_trip(HeaderKey::Upgrade);
    lemma_key_round_trip(HeaderKey::Via);
    lemma_key_round_trip(HeaderKey::Warning);
}

/// Each standard method is named by its own token (RFC 9110), and that token is read as that method: `Get` by "GET", `Post` by "POST", `Put` by "PUT", and so on for every method.
pub proof fn lemma_method_names()
    ensures
        method_name(Method::Get) == "GET"@,
        method_name(Method::Post) == "POST"@,
        method_name(Method::Put) == "PUT"@,
        method_name(Method::Delete) == "DELETE"@,
        method_name(Method::Head) == "HEAD"@,
        method_name(Method::Connect) == "CONNECT"@,
        method_name(Method::Options) == "OPTIONS"@,
        method_name(Method::Trace) == "TRACE"@,
        method_name(Method::Patch) == "PATCH"@,
        standard_method("GET"@) == Some(Method::Get),
        standard_method("POST"@) == Some(Method::Post),
        standard_method("PUT"@) == Some(Method::Put),
        standard_method("DELETE"@) == Some(Method::Delete),
        standard_method("HEAD"@) == Some(Method::Head),
        standard_method("CONNECT"@) == Some(Method::Connect),
        standard_method("OPTIONS"@) == Some(Method::Options),
        standard_method("TRACE"@) == Some(Method::Trace),
        standard_method("PATCH"@) == Some(Method::Patch),
{
    lemma_method_round_trip(Method::Get);
    lemma_method_round_trip(Method::Post);
    lemma_method_round_trip(Method::Put);
    lemma_method_round_trip(Method::Delete);
    lemma_method_round_trip(Method::Head);
    lemma_method_round_trip(Method::Connect);
    lemma_method_round_trip(Method::Options);
    lemma_method_round_trip(Method::Trace);
    lemma_method_round_trip(Method::Patch);
}

} // verus!
