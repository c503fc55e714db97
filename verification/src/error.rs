//! Structured application errors: their text, the HTTP status each one is
//! answered with, and the helpers that build them.
use vstd::prelude::*;
use vstd::string::*;

pub mod recovery;
pub mod validation;

verus! {

/// Application error kinds, each carrying a human-readable message.
#[derive(Debug)]
pub enum AppError {
    /// Bad request - client error
    BadRequest(String),
    /// Unauthorized
    Unauthorized(String),
    /// Not found
    NotFound(String),
    /// Internal server error
    Internal(String),
    /// Service unavailable
    ServiceUnavailable(String),
    /// Timeout
    Timeout(String),
}

impl AppError {
    /// The message the error carries.
    pub open spec fn msg(&self) -> Seq<char> {
        match self {
            AppError::BadRequest(m) => m@,
            AppError::Unauthorized(m) => m@,
            AppError::NotFound(m) => m@,
            AppError::Internal(m) => m@,
            AppError::ServiceUnavailable(m) => m@,
            AppError::Timeout(m) => m@,
        }
    }

    /// The text shown for the error: its kind's label, a colon and the message.
    pub open spec fn display(&self) -> Seq<char> {
        match self {
            AppError::BadRequest(m) => "Bad Request: "@ + m@,
            AppError::Unauthorized(m) => "Unauthorized: "@ + m@,
            AppError::NotFound(m) => "Not Found: "@ + m@,
            AppError::Internal(m) => "Internal Error: "@ + m@,
            AppError::ServiceUnavailable(m) => "Service Unavailable: "@ + m@,
            AppError::Timeout(m) => "Timeout: "@ + m@,
        }
    }

    /// The HTTP status the error is answered with.
    pub open spec fn status(&self) -> u16 {
        match self {
            AppError::BadRequest(_) => 400,
            AppError::Unauthorized(_) => 401,
            AppError::NotFound(_) => 404,
            AppError::Internal(_) => 500,
            AppError::ServiceUnavailable(_) => 503,
            AppError::Timeout(_) => 408,
        }
    }

    /// The text shown for the error (its `Display` form).
    pub fn to_string(&self) -> (r: String)
        ensures
            r@ == self.display(),
    {
        let (label, m) = match self {
            AppError::BadRequest(m) => ("Bad Request: ", m),
            AppError::Unauthorized(m) => ("Unauthorized: ", m),
            AppError::NotFound(m) => ("Not Found: ", m),
            AppError::Internal(m) => ("Internal Error: ", m),
            AppError::ServiceUnavailable(m) => ("Service Unavailable: ", m),
            AppError::Timeout(m) => ("Timeout: ", m),
        };
        let mut s = String::from_str(label);
        s.append(m.as_str());
        s
    }

    /// The HTTP status code of the response that reports this error.
    pub fn status_code(&self) -> (r: u16)
        ensures
            r == self.status(),
    {
        match self {
            AppError::BadRequest(_) => 400,
            AppError::Unauthorized(_) => 401,
            AppError::NotFound(_) => 404,
            AppError::Internal(_) => 500,
            AppError::ServiceUnavailable(_) => 503,
            AppError::Timeout(_) => 408,
        }
    }

    /// The status code and the bare message that the error response carries
    /// (its body reports the message under `error` and the code under `status`).
    pub fn into_status_and_message(self) -> (r: (u16, String))
        ensures
            r.0 == self.status(),
            r.1@ == self.msg(),
    {
        let status = self.status_code();
        let m = match self {
            AppError::BadRequest(m) => m,
            AppError::Unauthorized(m) => m,
            AppError::NotFound(m) => m,
            AppError::Internal(m) => m,
            AppError::ServiceUnavailable(m) => m,
            AppError::Timeout(m) => m,
        };
        (status, m)
    }

    /// A bad-request error with the given message.
    pub fn bad_request(msg: &str) -> (r: Self)
        ensures
            r matches AppError::BadRequest(m) && m@ == msg@,
    {
        AppError::BadRequest(msg.to_owned())
    }

    /// A not-found error with the given message.
    pub fn not_found(msg: &str) -> (r: Self)
        ensures
            r matches AppError::NotFound(m) && m@ == msg@,
    {
        AppError::NotFound(msg.to_owned())
    }

    /// An internal error with the given message.
    pub fn internal(msg: &str) -> (r: Self)
        ensures
            r matches AppError::Internal(m) && m@ == msg@,
    {
        AppError::Internal(msg.to_owned())
    }

    /// A service-unavailable error with the given message.
    pub fn service_unavailable(msg: &str) -> (r: Self)
        ensures
            r matches AppError::ServiceUnavailable(m) && m@ == msg@,
    {
        AppError::ServiceUnavailable(msg.to_owned())
    }

    /// A timeout error with the given message.
    pub fn timeout(msg: &str) -> (r: Self)
        ensures
            r matches AppError::Timeout(m) && m@ == msg@,
    {
        AppError::Timeout(msg.to_owned())
    }
}

/// An internal error whose message is the context, a colon and the text of
/// the wrapped error.
pub fn wrap_err(err: &str, context: &str) -> (r: AppError)
    ensures
        r matches AppError::Internal(m) && m@ == context@ + ": "@ + err@,
{
    let mut s = String::from_str(context);
    s.append(": ");
    s.append(err);
    AppError::Internal(s)
}

} // verus!
