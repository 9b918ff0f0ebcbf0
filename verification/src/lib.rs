//! Request builders for S3 object operations, with every input validated
//! as it is set, every request prepared into a plain description, and every
//! answer read into a typed output or a service error.
pub mod error;
pub mod text;
pub mod validate;
pub mod common;
pub mod request;
pub mod objects;
pub mod xml;
pub mod batch;
pub mod copy;
pub mod multipart;
pub mod listing;
pub mod presign;
pub mod content_md5;
pub mod response;
pub mod decode;
