use vstd::prelude::*;
use crate::common::{clone_opt, opt_pair, opt_text, push_opt_pair, push_pair, Pairs};
use crate::error::{Error, is_config_error};
use crate::multipart::opt_decimal;
use crate::objects::ObjectsService;
use crate::request::{AsyncBody, BodyModel, HttpMethod, PreparedRequest, RequestPlan, outcome};
use crate::text::{is_header_value, is_object_key, push_decimal};
use crate::validate::{
    invalid_named, is_query_value, validate_max_keys, validate_object_key, validate_query_token,
    validate_query_value, MAX_KEYS_LIMIT,
};

verus! {

impl ObjectsService {
    /// Starts a ListObjectsV2 request with no filters.
    pub fn list_v2(&self, bucket: &str) -> (r: ListObjectsV2Request)
        ensures
            r@ == (ListV2Model {
                bucket: bucket@,
                prefix: None,
                delimiter: None,
                continuation_token: None,
                start_after: None,
                max_keys: None,
            }),
            list_v2_ok(r@),
    {
        ListObjectsV2Request {
            bucket: String::from_str(bucket),
            prefix: None,
            delimiter: None,
            continuation_token: None,
            start_after: None,
            max_keys: None,
        }
    }
}

/// A ListObjectsV2 request as plain values.
#[verifier::ext_equal]
pub struct ListV2Model {
    pub bucket: Seq<char>,
    pub prefix: Option<Seq<char>>,
    pub delimiter: Option<Seq<char>>,
    pub continuation_token: Option<Seq<char>>,
    pub start_after: Option<Seq<char>>,
    pub max_keys: Option<u32>,
}

/// Every field that is set holds a value its setter accepts.
pub open spec fn list_v2_ok(m: ListV2Model) -> bool {
    &&& m.prefix matches Some(v) ==> is_query_value(v)
    &&& m.delimiter matches Some(v) ==> is_query_value(v)
    &&& m.continuation_token matches Some(v) ==> is_header_value(v)
    &&& m.start_after matches Some(v) ==> is_object_key(v)
    &&& m.max_keys matches Some(v) ==> 1 <= v <= MAX_KEYS_LIMIT
}

/// The query of a listing: `list-type=2`, then the fields that are set.
pub open spec fn list_v2_query(m: ListV2Model) -> Pairs {
    seq![("list-type"@, "2"@)] + opt_pair("prefix"@, m.prefix) + opt_pair("delimiter"@, m.delimiter)
        + opt_pair("continuation-token"@, m.continuation_token) + opt_pair("start-after"@, m.start_after)
        + opt_pair("max-keys"@, opt_decimal(m.max_keys))
}

/// What preparing a listing gives: each field is checked again, in order,
/// then a GET of the bucket with `list_v2_query`.
pub open spec fn list_v2_plan(m: ListV2Model) -> Result<RequestPlan, Seq<char>> {
    if m.prefix matches Some(v) && !is_query_value(v) {
        Err(invalid_named("prefix"@))
    } else if m.delimiter matches Some(v) && !is_query_value(v) {
        Err(invalid_named("delimiter"@))
    } else if m.continuation_token matches Some(v) && !is_header_value(v) {
        Err(invalid_named("continuation_token"@))
    } else if m.start_after matches Some(v) && !is_object_key(v) {
        Err("invalid object key"@)
    } else if m.max_keys matches Some(v) && !(1 <= v <= MAX_KEYS_LIMIT) {
        Err("max_keys must be between 1 and 1000"@)
    } else {
        Ok(RequestPlan {
            method: HttpMethod::Get,
            bucket: m.bucket,
            key: None,
            query: list_v2_query(m),
            headers: Seq::empty(),
            body: BodyModel::Empty,
        })
    }
}

/// A listing whose fields were all accepted by their setters is prepared
/// without error: validation happens when a value is set.
pub proof fn law_accepted_listing_prepares(m: ListV2Model)
    requires
        list_v2_ok(m),
    ensures
        list_v2_plan(m) is Ok,
{
}

/// Request builder for ListObjectsV2.
pub struct ListObjectsV2Request {
    bucket: String,
    prefix: Option<String>,
    delimiter: Option<String>,
    continuation_token: Option<String>,
    start_after: Option<String>,
    max_keys: Option<u32>,
}

impl View for ListObjectsV2Request {
    type V = ListV2Model;

    closed spec fn view(&self) -> ListV2Model {
        ListV2Model {
            bucket: self.bucket@,
            prefix: opt_text(self.prefix),
            delimiter: opt_text(self.delimiter),
            continuation_token: opt_text(self.continuation_token),
            start_after: opt_text(self.start_after),
            max_keys: self.max_keys,
        }
    }
}

impl ListObjectsV2Request {
    /// Filters by key prefix; the prefix must be non-empty, without control characters.
    pub fn prefix(self, value: &str) -> (r: Result<Self, Error>)
        ensures
            r is Ok <==> is_query_value(value@),
            r matches Ok(q) ==> q@ == (ListV2Model { prefix: Some(value@), ..self@ }),
            r matches Ok(q) ==> (list_v2_ok(self@) ==> list_v2_ok(q@)),
            r matches Err(e) ==> is_config_error(e, invalid_named("prefix"@)),
    {
        validate_query_value("prefix", value)?;
        let mut q = self;
        q.prefix = Some(String::from_str(value));
        Ok(q)
    }

    /// Groups keys by delimiter; the delimiter must be non-empty, without control characters.
    pub fn delimiter(self, value: &str) -> (r: Result<Self, Error>)
        ensures
            r is Ok <==> is_query_value(value@),
            r matches Ok(q) ==> q@ == (ListV2Model { delimiter: Some(value@), ..self@ }),
            r matches Ok(q) ==> (list_v2_ok(self@) ==> list_v2_ok(q@)),
            r matches Err(e) ==> is_config_error(e, invalid_named("delimiter"@)),
    {
        validate_query_value("delimiter", value)?;
        let mut q = self;
        q.delimiter = Some(String::from_str(value));
        Ok(q)
    }

    /// Sets the continuation token for pagination.
    pub fn continuation_token(self, value: &str) -> (r: Result<Self, Error>)
        ensures
            r is Ok <==> is_header_value(value@),
            r matches Ok(q) ==> q@ == (ListV2Model { continuation_token: Some(value@), ..self@ }),
            r matches Ok(q) ==> (list_v2_ok(self@) ==> list_v2_ok(q@)),
            r matches Err(e) ==> is_config_error(e, invalid_named("continuation_token"@)),
    {
        validate_query_token("continuation_token", value)?;
        let mut q = self;
        q.continuation_token = Some(String::from_str(value));
        Ok(q)
    }

    /// Starts listing after the given key, which must be an acceptable object key.
    pub fn start_after(self, value: &str) -> (r: Result<Self, Error>)
        ensures
            r is Ok <==> is_object_key(value@),
            r matches Ok(q) ==> q@ == (ListV2Model { start_after: Some(value@), ..self@ }),
            r matches Ok(q) ==> (list_v2_ok(self@) ==> list_v2_ok(q@)),
            r matches Err(e) ==> is_config_error(e, "invalid object key"@),
    {
        validate_object_key(value)?;
        let mut q = self;
        q.start_after = Some(String::from_str(value));
        Ok(q)
    }

    /// Sets the maximum number of keys to return (1 to 1000).
    pub fn max_keys(self, value: u32) -> (r: Result<Self, Error>)
        ensures
            r is Ok <==> 1 <= value <= MAX_KEYS_LIMIT,
            r matches Ok(q) ==> q@ == (ListV2Model { max_keys: Some(value), ..self@ }),
            r matches Ok(q) ==> (list_v2_ok(self@) ==> list_v2_ok(q@)),
            r matches Err(e) ==> is_config_error(e, "max_keys must be between 1 and 1000"@),
    {
        validate_max_keys(value)?;
        let mut q = self;
        q.max_keys = Some(value);
        Ok(q)
    }

    /// Converts this request into a pager that starts at its settings.
    pub fn pager(self) -> (r: ListObjectsV2Pager)
        ensures
            r@ == (PagerModel { request: self@, done: false }),
    {
        ListObjectsV2Pager {
            bucket: self.bucket,
            prefix: self.prefix,
            delimiter: self.delimiter,
            continuation_token: self.continuation_token,
            start_after: self.start_after,
            max_keys: self.max_keys,
            done: false,
        }
    }

    /// The request to send, as `list_v2_plan` describes it.
    pub fn prepare(self) -> (r: Result<PreparedRequest, Error>)
        ensures
            outcome(r, list_v2_plan(self@)),
    {
        let ghost m = self@;
        let mut query: Vec<(String, String)> = Vec::new();
        push_pair(&mut query, "list-type", String::from_str("2"));
        match &self.prefix {
            Some(v) => validate_query_value("prefix", v.as_str())?,
            None => {},
        }
        match &self.delimiter {
            Some(v) => validate_query_value("delimiter", v.as_str())?,
            None => {},
        }
        match &self.continuation_token {
            Some(v) => validate_query_token("continuation_token", v.as_str())?,
            None => {},
        }
        match &self.start_after {
            Some(v) => validate_object_key(v.as_str())?,
            None => {},
        }
        match self.max_keys {
            Some(v) => validate_max_keys(v)?,
            None => {},
        }
        push_opt_pair(&mut query, "prefix", &self.prefix);
        push_opt_pair(&mut query, "delimiter", &self.delimiter);
        push_opt_pair(&mut query, "continuation-token", &self.continuation_token);
        push_opt_pair(&mut query, "start-after", &self.start_after);
        match self.max_keys {
            Some(v) => {
                let mut s = String::new();
                push_decimal(&mut s, v as u64);
                push_pair(&mut query, "max-keys", s);
            },
            None => {},
        }
        let r = PreparedRequest {
            method: HttpMethod::Get,
            bucket: self.bucket,
            key: None,
            query,
            headers: Vec::new(),
            body: AsyncBody::Empty,
        };
        proof {
            assert(r@.query =~= list_v2_query(m));
            assert(r@ =~= list_v2_plan(m)->Ok_0);
        }
        Ok(r)
    }
}

// ---------------------------------------------------------------- pager

/// A pager as plain values: the settings of the next request, and whether
/// the listing is over.
#[verifier::ext_equal]
pub struct PagerModel {
    pub request: ListV2Model,
    pub done: bool,
}

/// The next request of a pager: none once the listing is over; otherwise
/// its settings, where `start-after` is sent only while there is no
/// continuation token.
pub open spec fn pager_next(p: PagerModel) -> Option<ListV2Model> {
    if p.done {
        None
    } else {
        Some(ListV2Model {
            start_after: if p.request.continuation_token is Some {
                None
            } else {
                p.request.start_after
            },
            ..p.request
        })
    }
}

/// The message for a truncated page without a next token.
pub open spec fn missing_token_message() -> Seq<char> {
    "truncated ListObjectsV2 response is missing NextContinuationToken"@
}

/// The message for a next token equal to the current one.
pub open spec fn stalled_token_message() -> Seq<char> {
    "ListObjectsV2 continuation token did not advance"@
}

/// The token for the following page: none when the page is not
/// truncated; otherwise the (non-empty) next token, which must differ from
/// the current one.
pub open spec fn next_token(current: Option<Seq<char>>, next: Option<Seq<char>>, is_truncated: bool) -> Result<Option<Seq<char>>, Seq<char>> {
    if !is_truncated {
        Ok(None)
    } else {
        match next {
            None => Err(missing_token_message()),
            Some(t) => if t.len() == 0 {
                Err(missing_token_message())
            } else if current == Some(t) {
                Err(stalled_token_message())
            } else {
                Ok(Some(t))
            },
        }
    }
}

/// Decides the token for the following page, as `next_token` says.
pub fn next_list_v2_continuation_token(current: Option<&str>, next: Option<&str>, is_truncated: bool) -> (r: Result<Option<String>, Error>)
    ensures
        match next_token(
            match current {
                Some(c) => Some(c@),
                None => None,
            },
            match next {
                Some(t) => Some(t@),
                None => None,
            },
            is_truncated,
        ) {
            Ok(t) => r matches Ok(s) && opt_text(s) == t,
            Err(msg) => r matches Err(e) && is_config_error(e, msg),
        },
{
    if !is_truncated {
        return Ok(None);
    }
    match next {
        None => Err(Error::invalid_config("truncated ListObjectsV2 response is missing NextContinuationToken")),
        Some(t) => {
            if t.unicode_len() == 0 {
                return Err(Error::invalid_config("truncated ListObjectsV2 response is missing NextContinuationToken"));
            }
            match current {
                Some(c) => {
                    let same = String::from_str(c) == String::from_str(t);
                    if same {
                        return Err(Error::invalid_config("ListObjectsV2 continuation token did not advance"));
                    }
                },
                None => {},
            }
            Ok(Some(String::from_str(t)))
        },
    }
}

/// The pager after a page whose next token is `next` and whose truncation
/// flag is `is_truncated`, with the outcome of recording it. A pager that is
/// over stays as it is; a refused page ends the listing.
pub open spec fn pager_after_page(p: PagerModel, next: Option<Seq<char>>, is_truncated: bool) -> (PagerModel, Result<(), Seq<char>>) {
    if p.done {
        (p, Ok(()))
    } else {
        match next_token(p.request.continuation_token, next, is_truncated) {
            Err(msg) => (PagerModel { done: true, ..p }, Err(msg)),
            Ok(t) => (
                PagerModel {
                    request: ListV2Model { continuation_token: t, ..p.request },
                    done: t is None,
                },
                Ok(()),
            ),
        }
    }
}

/// Pager for ListObjectsV2 responses. Sending each request is the
/// caller's part: ask `next_request`, send it, then `record_page`.
pub struct ListObjectsV2Pager {
    bucket: String,
    prefix: Option<String>,
    delimiter: Option<String>,
    continuation_token: Option<String>,
    start_after: Option<String>,
    max_keys: Option<u32>,
    done: bool,
}

impl View for ListObjectsV2Pager {
    type V = PagerModel;

    closed spec fn view(&self) -> PagerModel {
        PagerModel {
            request: ListV2Model {
                bucket: self.bucket@,
                prefix: opt_text(self.prefix),
                delimiter: opt_text(self.delimiter),
                continuation_token: opt_text(self.continuation_token),
                start_after: opt_text(self.start_after),
                max_keys: self.max_keys,
            },
            done: self.done,
        }
    }
}

impl ListObjectsV2Pager {
    /// The request for the next page, or `None` when the listing is over.
    pub fn next_request(&self) -> (r: Option<ListObjectsV2Request>)
        ensures
            match pager_next(self@) {
                Some(m) => r matches Some(q) && q@ == m,
                None => r is None,
            },
    {
        if self.done {
            return None;
        }
        let start_after = if self.continuation_token.is_some() {
            None
        } else {
            clone_opt(&self.start_after)
        };
        let q = ListObjectsV2Request {
            bucket: self.bucket.clone(),
            prefix: clone_opt(&self.prefix),
            delimiter: clone_opt(&self.delimiter),
            continuation_token: clone_opt(&self.continuation_token),
            start_after,
            max_keys: self.max_keys,
        };
        proof {
            assert(q@ =~= pager_next(self@)->Some_0);
        }
        Some(q)
    }

    /// Records a page: its next continuation token and whether it was
    /// truncated, as `pager_after_page` says.
    pub fn record_page(&mut self, next_continuation_token: Option<&str>, is_truncated: bool) -> (r: Result<(), Error>)
        ensures
            final(self)@ == pager_after_page(
                old(self)@,
                match next_continuation_token {
                    Some(t) => Some(t@),
                    None => None,
                },
                is_truncated,
            ).0,
            match pager_after_page(
                old(self)@,
                match next_continuation_token {
                    Some(t) => Some(t@),
                    None => None,
                },
                is_truncated,
            ).1 {
                Ok(()) => r is Ok,
                Err(msg) => r matches Err(e) && is_config_error(e, msg),
            },
    {
        if self.done {
            return Ok(());
        }
        let current = match &self.continuation_token {
            Some(c) => Some(c.as_str()),
            None => None,
        };
        let next = next_list_v2_continuation_token(current, next_continuation_token, is_truncated);
        match next {
            Err(e) => {
                self.done = true;
                Err(e)
            },
            Ok(t) => {
                self.done = t.is_none();
                self.continuation_token = t;
                Ok(())
            },
        }
    }

    /// The configured maximum number of keys per request, if set. It does
    /// not say how many pages remain.
    pub fn max_keys(&self) -> (r: Option<u32>)
        ensures
            r == self@.request.max_keys,
    {
        self.max_keys
    }
}

/// Once a listing is over, the pager offers no request, and recording a
/// page leaves it as it is.
pub proof fn law_finished_pager_stays_finished(p: PagerModel, next: Option<Seq<char>>, is_truncated: bool)
    requires
        p.done,
    ensures
        pager_next(p) is None,
        pager_after_page(p, next, is_truncated).0 == p,
{
}

/// A page that is not truncated ends the listing.
pub proof fn law_untruncated_page_ends_listing(p: PagerModel, next: Option<Seq<char>>)
    ensures
        pager_after_page(p, next, false).0.done,
        pager_next(pager_after_page(p, next, false).0) is None,
{
}

/// A listing that goes on after a page moves to a new, non-empty token:
/// the pager never asks twice in a row with the same token.
pub proof fn law_token_advances(p: PagerModel, next: Option<Seq<char>>, is_truncated: bool)
    requires
        !p.done,
        !pager_after_page(p, next, is_truncated).0.done,
    ensures
        pager_after_page(p, next, is_truncated).0.request.continuation_token matches Some(t)
            && t.len() > 0 && p.request.continuation_token != Some(t),
{
}

/// A refused page ends the listing.
pub proof fn law_refused_page_ends_listing(p: PagerModel, next: Option<Seq<char>>, is_truncated: bool)
    requires
        pager_after_page(p, next, is_truncated).1 is Err,
    ensures
        pager_after_page(p, next, is_truncated).0.done,
{
}

/// `start-after` only goes with the first request: a request that carries
/// a continuation token carries no `start-after`.
pub proof fn law_start_after_only_without_token(p: PagerModel)
    ensures
        pager_next(p) matches Some(m) ==> (m.continuation_token is Some ==> m.start_after is None),
{
}

/// Recording a page changes only the token and the end flag; the other
/// settings of the listing stay.
pub proof fn law_page_keeps_settings(p: PagerModel, next: Option<Seq<char>>, is_truncated: bool)
    ensures
        ({
            let q = pager_after_page(p, next, is_truncated).0.request;
            q.bucket == p.request.bucket && q.prefix == p.request.prefix && q.delimiter
                == p.request.delimiter && q.start_after == p.request.start_after && q.max_keys
                == p.request.max_keys
        }),
{
}

/// Every page of a listing is asked for the same listing: the next request
/// keeps the bucket, prefix, delimiter and page size, and the token recorded
/// so far; `start-after` is dropped only once a token is there.
pub proof fn law_next_request_keeps_listing(p: PagerModel)
    ensures
        !p.done ==> pager_next(p) is Some,
        pager_next(p) matches Some(m) ==> {
            &&& m.bucket == p.request.bucket
            &&& m.prefix == p.request.prefix
            &&& m.delimiter == p.request.delimiter
            &&& m.max_keys == p.request.max_keys
            &&& m.continuation_token == p.request.continuation_token
            &&& (p.request.continuation_token is None ==> m.start_after == p.request.start_after)
        },
{
}

} // verus!
