use vstd::prelude::*;
use crate::common::Pairs;

verus! {

/// The HTTP method of a request.
#[derive(Clone, Copy, Debug, PartialEq, Eq, Structural)]
pub enum HttpMethod {
    Get,
    Head,
    Put,
    Post,
    Delete,
}

/// The body of a request. A streamed body is held by the caller; the
/// library keeps only its declared length.
#[derive(Debug)]
pub enum AsyncBody {
    /// No body.
    Empty,
    /// A body given in full.
    Bytes(Vec<u8>),
    /// A streamed body, with its content length when known.
    Stream { content_length: Option<u64> },
}

/// What a body is, as plain values.
pub enum BodyModel {
    Empty,
    Bytes(Seq<u8>),
    Stream(Option<u64>),
}

impl View for AsyncBody {
    type V = BodyModel;

    open spec fn view(&self) -> BodyModel {
        match self {
            AsyncBody::Empty => BodyModel::Empty,
            AsyncBody::Bytes(b) => BodyModel::Bytes(b@),
            AsyncBody::Stream { content_length } => BodyModel::Stream(*content_length),
        }
    }
}

/// A request ready to be signed and sent: method, addressing, query
/// parameters, headers (lower-case names) and body.
#[derive(Debug)]
pub struct PreparedRequest {
    pub method: HttpMethod,
    pub bucket: String,
    pub key: Option<String>,
    pub query: Vec<(String, String)>,
    pub headers: Vec<(String, String)>,
    pub body: AsyncBody,
}

/// A prepared request as plain values.
#[verifier::ext_equal]
pub struct RequestPlan {
    pub method: HttpMethod,
    pub bucket: Seq<char>,
    pub key: Option<Seq<char>>,
    pub query: Pairs,
    pub headers: Pairs,
    pub body: BodyModel,
}

impl View for PreparedRequest {
    type V = RequestPlan;

    open spec fn view(&self) -> RequestPlan {
        RequestPlan {
            method: self.method,
            bucket: self.bucket@,
            key: match self.key {
                Some(k) => Some(k@),
                None => None,
            },
            query: self.query.deep_view(),
            headers: self.headers.deep_view(),
            body: self.body@,
        }
    }
}

/// `r` is the outcome that `plan` describes: the planned request, or the
/// configuration error with the planned message.
pub open spec fn outcome(r: Result<PreparedRequest, crate::error::Error>, plan: Result<RequestPlan, Seq<char>>) -> bool {
    match (r, plan) {
        (Ok(p), Ok(q)) => p@ == q,
        (Err(e), Err(msg)) => crate::error::is_config_error(e, msg),
        _ => false,
    }
}

/// Whether a response status counts as success (2xx).
pub open spec fn is_success_status(status: u16) -> bool {
    200 <= status <= 299
}

/// Decides `is_success_status`.
pub fn status_is_success(status: u16) -> (b: bool)
    ensures
        b == is_success_status(status),
{
    200 <= status && status <= 299
}

} // verus!
