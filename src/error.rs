//! Errors of the server, and the HTTP answer each one gets.
use vstd::prelude::*;

verus! {

/// Every way a request or a stream can fail.
#[derive(Debug, Clone)]
pub enum CRRError {
    DatabaseError(String),
    ParserError(String),
    InvalidURLError(String),
    SmtpError(String),
    MailingError(String),
    InvalidAddress(String),
    EnvVarError(String),
    BroadcastRecvError(String),
    IOError(String),
    Unauthorized(String),
    UnsupportedOS(String),
    PoisonedLockError(String),
    SignalSendError(String),
    JsonError(String),
    ReservedName(String),
    PathRejection(String),
    Base64DecodeError(String),
}

pub const STATUS_BAD_REQUEST: u16 = 400;

pub const STATUS_UNAUTHORIZED: u16 = 401;

pub const STATUS_INTERNAL_SERVER_ERROR: u16 = 500;

/// The status an error is answered with: 401 for a denial, 400 for a
/// reserved name or a request that does not parse, 500 for the rest.
pub open spec fn status_of(e: CRRError) -> u16 {
    match e {
        CRRError::Unauthorized(_) => STATUS_UNAUTHORIZED,
        CRRError::ReservedName(_) => STATUS_BAD_REQUEST,
        CRRError::ParserError(_) => STATUS_BAD_REQUEST,
        CRRError::InvalidURLError(_) => STATUS_BAD_REQUEST,
        CRRError::JsonError(_) => STATUS_BAD_REQUEST,
        CRRError::PathRejection(_) => STATUS_BAD_REQUEST,
        CRRError::Base64DecodeError(_) => STATUS_BAD_REQUEST,
        _ => STATUS_INTERNAL_SERVER_ERROR,
    }
}

impl CRRError {
    pub fn unauthorized(msg: String) -> (r: CRRError)
        ensures
            r == CRRError::Unauthorized(msg),
    {
        CRRError::Unauthorized(msg)
    }

    /// The text that names a reserved database.
    pub open spec fn reserved_message(name: Seq<char>) -> Seq<char> {
        "Database "@ + name + " is reserved for Internal Purposes"@
    }

    /// What a client is told: the reason of a denial, the description of a
    /// request error, and nothing of an internal failure.
    pub open spec fn spec_public_message(self) -> Seq<char> {
        match self {
            CRRError::Unauthorized(m) => m@,
            CRRError::ReservedName(n) => CRRError::reserved_message(n@),
            CRRError::ParserError(m) => "Parser Error: "@ + m@,
            CRRError::InvalidURLError(m) => "Invalid URL: "@ + m@,
            CRRError::JsonError(m) => "JSON Error: "@ + m@,
            CRRError::PathRejection(m) => "Invalid Path Parameter: "@ + m@,
            CRRError::Base64DecodeError(m) => "Failed to decode Base64-String: "@ + m@,
            _ => "Internal Server Error"@,
        }
    }

    pub fn public_message(&self) -> (r: String)
        ensures
            r@ == self.spec_public_message(),
    {
        match self {
            CRRError::Unauthorized(m) => m.clone(),
            CRRError::ReservedName(n) => "Database ".to_owned().concat(n.as_str()).concat(
                " is reserved for Internal Purposes",
            ),
            CRRError::ParserError(m) => "Parser Error: ".to_owned().concat(m.as_str()),
            CRRError::InvalidURLError(m) => "Invalid URL: ".to_owned().concat(m.as_str()),
            CRRError::JsonError(m) => "JSON Error: ".to_owned().concat(m.as_str()),
            CRRError::PathRejection(m) => "Invalid Path Parameter: ".to_owned().concat(m.as_str()),
            CRRError::Base64DecodeError(m) => "Failed to decode Base64-String: ".to_owned().concat(
                m.as_str(),
            ),
            _ => "Internal Server Error".to_owned(),
        }
    }
}

/// An error as a client sees it: a status and a message.
#[derive(Debug, Clone)]
pub struct HttpError {
    pub status_code: u16,
    pub message: String,
}

impl HttpError {
    pub fn from(value: CRRError) -> (r: HttpError)
        ensures
            r.status_code == status_of(value),
            r.message@ == value.spec_public_message(),
    {
        let message = value.public_message();
        let status_code = match value {
            CRRError::Unauthorized(_) => STATUS_UNAUTHORIZED,
            CRRError::ReservedName(_) => STATUS_BAD_REQUEST,
            CRRError::ParserError(_) => STATUS_BAD_REQUEST,
            CRRError::InvalidURLError(_) => STATUS_BAD_REQUEST,
            CRRError::JsonError(_) => STATUS_BAD_REQUEST,
            CRRError::PathRejection(_) => STATUS_BAD_REQUEST,
            CRRError::Base64DecodeError(_) => STATUS_BAD_REQUEST,
            _ => STATUS_INTERNAL_SERVER_ERROR,
        };
        HttpError { status_code, message }
    }

    pub fn status_code(&self) -> (r: u16)
        ensures
            r == self.status_code,
    {
        self.status_code
    }

    pub fn message(&self) -> (r: &str)
        ensures
            r@ == self.message@,
    {
        self.message.as_str()
    }
}

} // verus!
