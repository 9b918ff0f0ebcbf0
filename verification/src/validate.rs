use vstd::prelude::*;
use crate::error::{Error, is_config_error};
use crate::text::{
    check_header_text, check_no_controls, check_object_key, check_token, has_no_controls,
    is_header_text, is_header_value, is_object_key, is_token,
};

verus! {

/// Largest `max-keys` a listing accepts.
pub const MAX_KEYS_LIMIT: u32 = 1000;

/// Largest `max-parts` a part listing accepts.
pub const MAX_PARTS_LIMIT: u32 = 1000;

/// Largest part number of a multipart upload.
pub const MAX_PART_NUMBER: u32 = 10000;

/// The outcome of a check: `Ok` exactly when `valid`, else the error `msg`.
pub open spec fn checked(r: Result<(), Error>, valid: bool, msg: Seq<char>) -> bool {
    &&& r is Ok <==> valid
    &&& r matches Err(e) ==> is_config_error(e, msg)
}

/// Rejects a header value that is empty, holds a character that a header
/// value cannot carry, or starts or ends with a blank; `message` names the header.
pub fn validate_header_value(value: &str, message: &str) -> (r: Result<(), Error>)
    ensures
        checked(r, is_header_value(value@), message@),
{
    if value.unicode_len() == 0 || !check_header_text(value) {
        return Err(Error::invalid_config(message));
    }
    Ok(())
}

/// Rejects an object key that is not `is_object_key`.
pub fn validate_object_key(key: &str) -> (r: Result<(), Error>)
    ensures
        checked(r, is_object_key(key@), "invalid object key"@),
{
    if !check_object_key(key) {
        return Err(Error::invalid_config("invalid object key"));
    }
    Ok(())
}

/// Rejects a version id that could not be sent as a header value.
pub fn validate_version_id(version_id: &str) -> (r: Result<(), Error>)
    ensures
        checked(r, is_header_value(version_id@), "invalid version_id"@),
{
    validate_header_value(version_id, "invalid version_id")
}

/// `invalid ` followed by `name`.
pub open spec fn invalid_named(name: Seq<char>) -> Seq<char> {
    "invalid "@ + name
}

fn invalid_named_error(name: &str) -> (e: Error)
    ensures
        is_config_error(e, invalid_named(name@)),
{
    let message = String::from_str("invalid ").concat(name);
    Error::InvalidConfig { message }
}

/// An acceptable query value: non-empty, without control characters.
pub open spec fn is_query_value(s: Seq<char>) -> bool {
    s.len() > 0 && has_no_controls(s)
}

/// Rejects a query value that is not `is_query_value`; the error names `name`.
pub fn validate_query_value(name: &str, value: &str) -> (r: Result<(), Error>)
    ensures
        checked(r, is_query_value(value@), invalid_named(name@)),
{
    if value.unicode_len() == 0 || !check_no_controls(value) {
        return Err(invalid_named_error(name));
    }
    Ok(())
}

/// Rejects an opaque query token (such as a continuation token) that is
/// empty, has a blank at either end, or holds a non-header character.
pub fn validate_query_token(name: &str, value: &str) -> (r: Result<(), Error>)
    ensures
        checked(r, is_header_value(value@), invalid_named(name@)),
{
    if value.unicode_len() == 0 || !check_header_text(value) {
        return Err(invalid_named_error(name));
    }
    Ok(())
}

/// Accepts `max-keys` from 1 to 1000.
pub fn validate_max_keys(value: u32) -> (r: Result<(), Error>)
    ensures
        checked(r, 1 <= value <= MAX_KEYS_LIMIT, "max_keys must be between 1 and 1000"@),
{
    if value == 0 || value > MAX_KEYS_LIMIT {
        return Err(Error::invalid_config("max_keys must be between 1 and 1000"));
    }
    Ok(())
}

/// Accepts `max-parts` from 1 to 1000.
pub fn validate_max_parts(value: u32) -> (r: Result<(), Error>)
    ensures
        checked(r, 1 <= value <= MAX_PARTS_LIMIT, "max_parts must be between 1 and 1000"@),
{
    if value == 0 || value > MAX_PARTS_LIMIT {
        return Err(Error::invalid_config("max_parts must be between 1 and 1000"));
    }
    Ok(())
}

/// Accepts a part-number marker from 1 to 10000.
pub fn validate_part_number_marker(value: u32) -> (r: Result<(), Error>)
    ensures
        checked(
            r,
            1 <= value <= MAX_PART_NUMBER,
            "part_number_marker must be between 1 and 10000"@,
        ),
{
    if value == 0 || value > MAX_PART_NUMBER {
        return Err(Error::invalid_config("part_number_marker must be between 1 and 10000"));
    }
    Ok(())
}

/// Accepts a part number from 1 to 10000.
pub fn validate_upload_part_number(value: u32) -> (r: Result<(), Error>)
    ensures
        checked(r, 1 <= value <= MAX_PART_NUMBER, "part_number must be between 1 and 10000"@),
{
    if value == 0 || value > MAX_PART_NUMBER {
        return Err(Error::invalid_config("part_number must be between 1 and 10000"));
    }
    Ok(())
}

/// Rejects an upload id that could not be sent as a header value
/// (so also an empty or all-blank one).
pub fn validate_upload_id(upload_id: &str) -> (r: Result<(), Error>)
    ensures
        checked(r, is_header_value(upload_id@), "invalid upload_id"@),
{
    validate_header_value(upload_id, "invalid upload_id")
}

/// A metadata key: a header-name token (so `x-amz-meta-` and the key form a
/// header name).
pub open spec fn is_metadata_key(s: Seq<char>) -> bool {
    is_token(s)
}

/// Rejects a metadata key that is not a token.
pub fn validate_metadata_key(key: &str) -> (r: Result<(), Error>)
    ensures
        checked(r, is_metadata_key(key@), "invalid metadata key"@),
{
    if !check_token(key) {
        return Err(Error::invalid_config("invalid metadata key"));
    }
    Ok(())
}

/// Rejects a metadata value that could not be sent as a header value; the
/// empty value is accepted.
pub fn validate_metadata_value(value: &str) -> (r: Result<(), Error>)
    ensures
        checked(r, is_header_text(value@), "invalid metadata value"@),
{
    if !check_header_text(value) {
        return Err(Error::invalid_config("invalid metadata value"));
    }
    Ok(())
}

} // verus!
