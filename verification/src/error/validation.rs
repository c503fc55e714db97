//! Validation helpers for request fields.
use vstd::prelude::*;
use vstd::string::*;

use crate::error::AppError;
use crate::text::{seq_starts_with, str_starts_with};

verus! {

/// A required string field is present and non-empty; otherwise a
/// bad-request error names the field.
pub fn required_field(value: Option<&str>, field_name: &str) -> (r: Result<String, AppError>)
    ensures
        r matches Ok(s) ==> value matches Some(v) && s@ == v@,
        r is Ok <==> (value matches Some(v) && v@.len() > 0),
        r matches Err(e) ==> e matches AppError::BadRequest(m) && m@ == field_name@
            + " is required"@,
{
    match value {
        Some(v) => {
            if v.unicode_len() > 0 {
                return Ok(v.to_owned());
            }
        },
        None => {},
    }
    let mut m = String::from_str(field_name);
    m.append(" is required");
    Err(AppError::BadRequest(m))
}

/// An integer field is present and strictly positive; otherwise a
/// bad-request error names the field.
pub fn positive_int(value: Option<u32>, field_name: &str) -> (r: Result<u32, AppError>)
    ensures
        r matches Ok(n) ==> value == Some(n) && n > 0,
        r is Ok <==> (value matches Some(v) && v > 0),
        r matches Err(e) ==> e matches AppError::BadRequest(m) && m@ == field_name@
            + " must be a positive integer"@,
{
    match value {
        Some(v) => {
            if v > 0 {
                return Ok(v);
            }
        },
        None => {},
    }
    let mut m = String::from_str(field_name);
    m.append(" must be a positive integer");
    Err(AppError::BadRequest(m))
}

/// The URLs that `url` accepts: those with an `http://` or `https://` scheme.
pub open spec fn is_http_url(value: Seq<char>) -> bool {
    seq_starts_with(value, "http://"@) || seq_starts_with(value, "https://"@)
}

/// A URL must start with `http://` or `https://`.
pub fn url(value: &str) -> (r: Result<(), AppError>)
    ensures
        r is Ok <==> is_http_url(value@),
        r matches Err(e) ==> e matches AppError::BadRequest(m) && m@
            == "URL must start with http:// or https://"@,
{
    if str_starts_with(value, "http://") || str_starts_with(value, "https://") {
        Ok(())
    } else {
        Err(AppError::bad_request("URL must start with http:// or https://"))
    }
}

} // verus!
