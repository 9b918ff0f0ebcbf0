use vstd::prelude::*;
use crate::common::{
    all_header_values, condition_headers, law_range_text_is_header_value, length_mismatch_message,
    metadata_accepts, metadata_error, opt_checksum_headers, opt_header_text, opt_pair, opt_range, opt_range_text, push_opt_header, push_opt_range,
    put_header_pairs, validate_content_length_matches_body, ByteRange, Checksum, ChecksumAlgorithm,
    HeaderText, ObjectConditions, Pairs, PutHeadersModel, PutObjectHeaders, empty_put_headers,
};
use crate::error::{Error, is_config_error};
use crate::request::{AsyncBody, BodyModel, HttpMethod, PreparedRequest, RequestPlan, outcome};
use crate::text::{is_header_value, is_object_key};
use crate::batch::{
    batch_full_message, delete_xml, encode_delete_objects, ids_view, push_delete_object,
    DeleteObjectIdentifier, MAX_DELETE_OBJECTS_PER_REQUEST,
};
use crate::copy::{apply_copy_metadata_headers, copy_metadata_headers, copy_source_header_value, copy_source_text, law_replace_metadata_sends_directive};
use crate::common::{push_pair, Metadata};
use crate::content_md5::{content_md5, content_md5_text};

verus! {

/// Starts object requests. Every request it starts names a bucket and
/// (except batch deletes and listings) a key.
#[derive(Clone, Copy)]
pub struct ObjectsService {}

impl ObjectsService {
    /// A service handle.
    pub fn new() -> (s: ObjectsService) {
        ObjectsService {}
    }

    /// Starts a request to GET an object.
    pub fn get(&self, bucket: &str, key: &str) -> (r: GetObjectRequest)
        ensures
            r@ == (GetObjectModel {
                bucket: bucket@,
                key: key@,
                range: None,
                conditions: (None, None),
                if_modified_since: None,
                if_unmodified_since: None,
            }),
    {
        GetObjectRequest {
            bucket: String::from_str(bucket),
            key: String::from_str(key),
            range: None,
            conditions: ObjectConditions::new(),
            if_modified_since: None,
            if_unmodified_since: None,
        }
    }

    /// Starts a request to HEAD an object.
    pub fn head(&self, bucket: &str, key: &str) -> (r: HeadObjectRequest)
        ensures
            r@ == (bucket@, key@),
    {
        HeadObjectRequest { bucket: String::from_str(bucket), key: String::from_str(key) }
    }

    /// Starts a request to PUT an object, with no headers and an empty body.
    pub fn put(&self, bucket: &str, key: &str) -> (r: PutObjectRequest)
        ensures
            r@ == (PutObjectModel {
                bucket: bucket@,
                key: key@,
                headers: empty_put_headers(),
                content_length: None,
                checksum: None,
                body: BodyModel::Empty,
            }),
    {
        PutObjectRequest {
            bucket: String::from_str(bucket),
            key: String::from_str(key),
            headers: PutObjectHeaders::new(),
            content_length: None,
            checksum: None,
            body: AsyncBody::Empty,
        }
    }

    /// Starts a request to DELETE multiple objects, naming none yet.
    pub fn delete_objects(&self, bucket: &str) -> (r: DeleteObjectsRequest)
        ensures
            r@ == (DeleteObjectsModel { bucket: bucket@, objects: Seq::empty(), quiet: false }),
    {
        let r = DeleteObjectsRequest { bucket: String::from_str(bucket), objects: Vec::new(), quiet: false };
        proof {
            assert(ids_view(r.objects@) =~= Seq::<(Seq<char>, Option<Seq<char>>)>::empty());
        }
        r
    }

    /// Starts a request to copy an object.
    pub fn copy(
        &self,
        source_bucket: &str,
        source_key: &str,
        destination_bucket: &str,
        destination_key: &str,
    ) -> (r: CopyObjectRequest)
        ensures
            r@ == (CopyObjectModel {
                source_bucket: source_bucket@,
                source_key: source_key@,
                source_version_id: None,
                destination_bucket: destination_bucket@,
                destination_key: destination_key@,
                replace_metadata: false,
                metadata: Seq::empty(),
                content_type: None,
            }),
    {
        CopyObjectRequest {
            source_bucket: String::from_str(source_bucket),
            source_key: String::from_str(source_key),
            source_version_id: None,
            destination_bucket: String::from_str(destination_bucket),
            destination_key: String::from_str(destination_key),
            replace_metadata: false,
            metadata: Metadata::new(),
            content_type: None,
        }
    }

    /// Starts a request to DELETE an object.
    pub fn delete(&self, bucket: &str, key: &str) -> (r: DeleteObjectRequest)
        ensures
            r@ == (bucket@, key@),
    {
        DeleteObjectRequest { bucket: String::from_str(bucket), key: String::from_str(key) }
    }
}

// ---------------------------------------------------------------- GET

/// A GET request as plain values.
#[verifier::ext_equal]
pub struct GetObjectModel {
    pub bucket: Seq<char>,
    pub key: Seq<char>,
    pub range: Option<(u64, u64)>,
    pub conditions: (Option<Seq<char>>, Option<Seq<char>>),
    pub if_modified_since: Option<Seq<char>>,
    pub if_unmodified_since: Option<Seq<char>>,
}

/// The headers of a GET.
pub open spec fn get_headers(m: GetObjectModel) -> Pairs {
    opt_pair("range"@, opt_range_text(m.range)) + condition_headers(m.conditions) + opt_pair(
        "if-modified-since"@,
        m.if_modified_since,
    ) + opt_pair("if-unmodified-since"@, m.if_unmodified_since)
}

/// The prepared GET.
pub open spec fn get_plan(m: GetObjectModel) -> RequestPlan {
    RequestPlan {
        method: HttpMethod::Get,
        bucket: m.bucket,
        key: Some(m.key),
        query: Seq::empty(),
        headers: get_headers(m),
        body: BodyModel::Empty,
    }
}

/// Request builder for fetching an object.
pub struct GetObjectRequest {
    bucket: String,
    key: String,
    range: Option<ByteRange>,
    conditions: ObjectConditions,
    if_modified_since: Option<HeaderText>,
    if_unmodified_since: Option<HeaderText>,
}

impl View for GetObjectRequest {
    type V = GetObjectModel;

    closed spec fn view(&self) -> GetObjectModel {
        GetObjectModel {
            bucket: self.bucket@,
            key: self.key@,
            range: opt_range(self.range),
            conditions: self.conditions@,
            if_modified_since: opt_header_text(self.if_modified_since),
            if_unmodified_since: opt_header_text(self.if_unmodified_since),
        }
    }
}

impl GetObjectRequest {
    /// Sets an inclusive byte range; rejected when `start` exceeds `end_inclusive`.
    pub fn range_bytes(self, start: u64, end_inclusive: u64) -> (r: Result<Self, Error>)
        ensures
            r is Ok <==> start <= end_inclusive,
            r matches Ok(q) ==> q@ == (GetObjectModel { range: Some((start, end_inclusive)), ..self@ }),
            r matches Err(e) ==> is_config_error(e, "invalid byte range: start must not exceed end"@),
    {
        let range = ByteRange::new(start, end_inclusive)?;
        let mut q = self;
        q.range = Some(range);
        Ok(q)
    }

    /// Adds an If-Match condition.
    pub fn if_match(self, value: &str) -> (r: Result<Self, Error>)
        ensures
            r is Ok <==> is_header_value(value@),
            r matches Ok(q) ==> q@ == (GetObjectModel {
                conditions: (Some(value@), self@.conditions.1),
                ..self@
            }),
            r matches Err(e) ==> is_config_error(e, "invalid If-Match header"@),
    {
        let mut q = self;
        q.conditions.set_if_match(value)?;
        Ok(q)
    }

    /// Adds an If-None-Match condition.
    pub fn if_none_match(self, value: &str) -> (r: Result<Self, Error>)
        ensures
            r is Ok <==> is_header_value(value@),
            r matches Ok(q) ==> q@ == (GetObjectModel {
                conditions: (self@.conditions.0, Some(value@)),
                ..self@
            }),
            r matches Err(e) ==> is_config_error(e, "invalid If-None-Match header"@),
    {
        let mut q = self;
        q.conditions.set_if_none_match(value)?;
        Ok(q)
    }

    /// Adds an If-Modified-Since condition.
    pub fn if_modified_since(self, value: &str) -> (r: Result<Self, Error>)
        ensures
            r is Ok <==> is_header_value(value@),
            r matches Ok(q) ==> q@ == (GetObjectModel { if_modified_since: Some(value@), ..self@ }),
            r matches Err(e) ==> is_config_error(e, "invalid If-Modified-Since header"@),
    {
        let t = HeaderText::new(value, "invalid If-Modified-Since header")?;
        let mut q = self;
        q.if_modified_since = Some(t);
        Ok(q)
    }

    /// Adds an If-Unmodified-Since condition.
    pub fn if_unmodified_since(self, value: &str) -> (r: Result<Self, Error>)
        ensures
            r is Ok <==> is_header_value(value@),
            r matches Ok(q) ==> q@ == (GetObjectModel { if_unmodified_since: Some(value@), ..self@ }),
            r matches Err(e) ==> is_config_error(e, "invalid If-Unmodified-Since header"@),
    {
        let t = HeaderText::new(value, "invalid If-Unmodified-Since header")?;
        let mut q = self;
        q.if_unmodified_since = Some(t);
        Ok(q)
    }

    /// The request to send: a GET of the object with the range and
    /// condition headers. Every header value is a header value.
    pub fn prepare(self) -> (r: PreparedRequest)
        ensures
            r@ == get_plan(self@),
            all_header_values(r@.headers),
    {
        let ghost m = self@;
        let mut headers: Vec<(String, String)> = Vec::new();
        proof {
            assert(headers.deep_view() =~= Seq::<(Seq<char>, Seq<char>)>::empty());
        }
        push_opt_range(&mut headers, "range", &self.range);
        self.conditions.push_headers(&mut headers);
        push_opt_header(&mut headers, "if-modified-since", &self.if_modified_since);
        push_opt_header(&mut headers, "if-unmodified-since", &self.if_unmodified_since);
        let r = PreparedRequest {
            method: HttpMethod::Get,
            bucket: self.bucket,
            key: Some(self.key),
            query: Vec::new(),
            headers,
            body: AsyncBody::Empty,
        };
        proof {
            assert(r@.headers =~= get_headers(m));
            assert(r@.query =~= Seq::<(Seq<char>, Seq<char>)>::empty());
            assert(r@ =~= get_plan(m));
            if let Some(rg) = m.range {
                law_range_text_is_header_value(rg.0, rg.1);
            }
            assert(all_header_values(r@.headers));
        }
        r
    }
}

// ---------------------------------------------------------------- HEAD

/// The prepared HEAD of `(bucket, key)`.
pub open spec fn head_plan(m: (Seq<char>, Seq<char>)) -> RequestPlan {
    RequestPlan {
        method: HttpMethod::Head,
        bucket: m.0,
        key: Some(m.1),
        query: Seq::empty(),
        headers: Seq::empty(),
        body: BodyModel::Empty,
    }
}

/// Request builder for fetching object metadata via HEAD.
pub struct HeadObjectRequest {
    bucket: String,
    key: String,
}

impl View for HeadObjectRequest {
    type V = (Seq<char>, Seq<char>);

    closed spec fn view(&self) -> (Seq<char>, Seq<char>) {
        (self.bucket@, self.key@)
    }
}

impl HeadObjectRequest {
    /// The request to send: a HEAD of the object.
    pub fn prepare(self) -> (r: PreparedRequest)
        ensures
            r@ == head_plan(self@),
    {
        let ghost m = self@;
        let r = PreparedRequest {
            method: HttpMethod::Head,
            bucket: self.bucket,
            key: Some(self.key),
            query: Vec::new(),
            headers: Vec::new(),
            body: AsyncBody::Empty,
        };
        proof {
            assert(r@ =~= head_plan(m));
        }
        r
    }
}

// ---------------------------------------------------------------- DELETE

/// The prepared DELETE of `(bucket, key)`.
pub open spec fn delete_plan(m: (Seq<char>, Seq<char>)) -> RequestPlan {
    RequestPlan {
        method: HttpMethod::Delete,
        bucket: m.0,
        key: Some(m.1),
        query: Seq::empty(),
        headers: Seq::empty(),
        body: BodyModel::Empty,
    }
}

/// Request builder for deleting a single object.
pub struct DeleteObjectRequest {
    bucket: String,
    key: String,
}

impl View for DeleteObjectRequest {
    type V = (Seq<char>, Seq<char>);

    closed spec fn view(&self) -> (Seq<char>, Seq<char>) {
        (self.bucket@, self.key@)
    }
}

impl DeleteObjectRequest {
    /// The request to send: a DELETE of the object.
    pub fn prepare(self) -> (r: PreparedRequest)
        ensures
            r@ == delete_plan(self@),
    {
        let ghost m = self@;
        let r = PreparedRequest {
            method: HttpMethod::Delete,
            bucket: self.bucket,
            key: Some(self.key),
            query: Vec::new(),
            headers: Vec::new(),
            body: AsyncBody::Empty,
        };
        proof {
            assert(r@ =~= delete_plan(m));
        }
        r
    }
}

// ---------------------------------------------------------------- PUT

/// A PUT request as plain values.
#[verifier::ext_equal]
pub struct PutObjectModel {
    pub bucket: Seq<char>,
    pub key: Seq<char>,
    pub headers: PutHeadersModel,
    pub content_length: Option<u64>,
    pub checksum: Option<(ChecksumAlgorithm, Seq<char>)>,
    pub body: BodyModel,
}

/// The prepared PUT with the given body.
pub open spec fn put_request(m: PutObjectModel, body: BodyModel) -> RequestPlan {
    RequestPlan {
        method: HttpMethod::Put,
        bucket: m.bucket,
        key: Some(m.key),
        query: Seq::empty(),
        headers: put_header_pairs(m.headers) + opt_checksum_headers(m.checksum),
        body,
    }
}

/// What preparing a PUT gives: a body of bytes must match a declared
/// length (no body counts as zero bytes), and a streamed body needs one.
pub open spec fn put_plan(m: PutObjectModel) -> Result<RequestPlan, Seq<char>> {
    match m.body {
        BodyModel::Empty => match m.content_length {
            Some(n) if n != 0 => Err(length_mismatch_message("put_object"@)),
            _ => Ok(put_request(m, BodyModel::Bytes(Seq::empty()))),
        },
        BodyModel::Bytes(b) => match m.content_length {
            Some(n) if n != b.len() => Err(length_mismatch_message("put_object"@)),
            _ => Ok(put_request(m, BodyModel::Bytes(b))),
        },
        BodyModel::Stream(_) => match m.content_length {
            Some(n) => Ok(put_request(m, BodyModel::Stream(Some(n)))),
            None => Err("streaming put requires content_length"@),
        },
    }
}

/// Request builder for uploading an object.
pub struct PutObjectRequest {
    bucket: String,
    key: String,
    headers: PutObjectHeaders,
    content_length: Option<u64>,
    checksum: Option<Checksum>,
    body: AsyncBody,
}

/// The view of an optional checksum.
pub open spec fn opt_checksum(c: Option<Checksum>) -> Option<(ChecksumAlgorithm, Seq<char>)> {
    match c {
        Some(c) => Some(c@),
        None => None,
    }
}

impl View for PutObjectRequest {
    type V = PutObjectModel;

    closed spec fn view(&self) -> PutObjectModel {
        PutObjectModel {
            bucket: self.bucket@,
            key: self.key@,
            headers: self.headers@,
            content_length: self.content_length,
            checksum: opt_checksum(self.checksum),
            body: self.body@,
        }
    }
}

impl PutObjectRequest {
    /// Sets the Content-Type header.
    pub fn content_type(self, value: &str) -> (r: Result<Self, Error>)
        ensures
            r is Ok <==> is_header_value(value@),
            r matches Ok(q) ==> q@ == (PutObjectModel {
                headers: PutHeadersModel { content_type: Some(value@), ..self@.headers },
                ..self@
            }),
            r matches Err(e) ==> is_config_error(e, "invalid Content-Type header"@),
    {
        let mut q = self;
        q.headers.content_type(value)?;
        Ok(q)
    }

    /// Sets the Cache-Control header.
    pub fn cache_control(self, value: &str) -> (r: Result<Self, Error>)
        ensures
            r is Ok <==> is_header_value(value@),
            r matches Ok(q) ==> q@ == (PutObjectModel {
                headers: PutHeadersModel { cache_control: Some(value@), ..self@.headers },
                ..self@
            }),
            r matches Err(e) ==> is_config_error(e, "invalid Cache-Control header"@),
    {
        let mut q = self;
        q.headers.cache_control(value)?;
        Ok(q)
    }

    /// Sets the Content-Disposition header.
    pub fn content_disposition(self, value: &str) -> (r: Result<Self, Error>)
        ensures
            r is Ok <==> is_header_value(value@),
            r matches Ok(q) ==> q@ == (PutObjectModel {
                headers: PutHeadersModel { content_disposition: Some(value@), ..self@.headers },
                ..self@
            }),
            r matches Err(e) ==> is_config_error(e, "invalid Content-Disposition header"@),
    {
        let mut q = self;
        q.headers.content_disposition(value)?;
        Ok(q)
    }

    /// Sets the Content-Encoding header.
    pub fn content_encoding(self, value: &str) -> (r: Result<Self, Error>)
        ensures
            r is Ok <==> is_header_value(value@),
            r matches Ok(q) ==> q@ == (PutObjectModel {
                headers: PutHeadersModel { content_encoding: Some(value@), ..self@.headers },
                ..self@
            }),
            r matches Err(e) ==> is_config_error(e, "invalid Content-Encoding header"@),
    {
        let mut q = self;
        q.headers.content_encoding(value)?;
        Ok(q)
    }

    /// Sets the Content-Language header.
    pub fn content_language(self, value: &str) -> (r: Result<Self, Error>)
        ensures
            r is Ok <==> is_header_value(value@),
            r matches Ok(q) ==> q@ == (PutObjectModel {
                headers: PutHeadersModel { content_language: Some(value@), ..self@.headers },
                ..self@
            }),
            r matches Err(e) ==> is_config_error(e, "invalid Content-Language header"@),
    {
        let mut q = self;
        q.headers.content_language(value)?;
        Ok(q)
    }

    /// Sets the Expires header.
    pub fn expires(self, value: &str) -> (r: Result<Self, Error>)
        ensures
            r is Ok <==> is_header_value(value@),
            r matches Ok(q) ==> q@ == (PutObjectModel {
                headers: PutHeadersModel { expires: Some(value@), ..self@.headers },
                ..self@
            }),
            r matches Err(e) ==> is_config_error(e, "invalid Expires header"@),
    {
        let mut q = self;
        q.headers.expires(value)?;
        Ok(q)
    }

    /// Adds an If-Match precondition.
    pub fn if_match(self, value: &str) -> (r: Result<Self, Error>)
        ensures
            r is Ok <==> is_header_value(value@),
            r matches Ok(q) ==> q@ == (PutObjectModel {
                headers: PutHeadersModel { if_match: Some(value@), ..self@.headers },
                ..self@
            }),
            r matches Err(e) ==> is_config_error(e, "invalid If-Match header"@),
    {
        let mut q = self;
        q.headers.if_match(value)?;
        Ok(q)
    }

    /// Adds an If-None-Match precondition; use `*` for create-if-absent writes.
    pub fn if_none_match(self, value: &str) -> (r: Result<Self, Error>)
        ensures
            r is Ok <==> is_header_value(value@),
            r matches Ok(q) ==> q@ == (PutObjectModel {
                headers: PutHeadersModel { if_none_match: Some(value@), ..self@.headers },
                ..self@
            }),
            r matches Err(e) ==> is_config_error(e, "invalid If-None-Match header"@),
    {
        let mut q = self;
        q.headers.if_none_match(value)?;
        Ok(q)
    }

    /// Sets the content length (required for streaming bodies).
    pub fn content_length(self, value: u64) -> (r: Self)
        ensures
            r@ == (PutObjectModel { content_length: Some(value), ..self@ }),
    {
        let mut q = self;
        q.content_length = Some(value);
        q
    }

    /// Adds a user metadata entry.
    pub fn metadata(self, key: &str, value: &str) -> (r: Result<Self, Error>)
        ensures
            r is Ok <==> metadata_accepts(self@.headers.metadata, key@, value@),
            r matches Ok(q) ==> q@ == (PutObjectModel {
                headers: PutHeadersModel {
                    metadata: self@.headers.metadata.push((key@, value@)),
                    ..self@.headers
                },
                ..self@
            }),
            r matches Err(e) ==> is_config_error(e, metadata_error(key@, value@)),
    {
        let mut q = self;
        q.headers.metadata(key, value)?;
        Ok(q)
    }

    /// Sets a checksum to be sent with the upload.
    pub fn checksum(self, checksum: Checksum) -> (r: Self)
        ensures
            r@ == (PutObjectModel { checksum: Some(checksum@), ..self@ }),
    {
        let mut q = self;
        q.checksum = Some(checksum);
        q
    }

    /// Sets the request body from bytes.
    pub fn body_bytes(self, body: Vec<u8>) -> (r: Self)
        ensures
            r@ == (PutObjectModel { body: BodyModel::Bytes(body@), ..self@ }),
    {
        let mut q = self;
        q.body = AsyncBody::Bytes(body);
        q
    }

    /// Marks the body as a stream that the caller supplies when sending.
    pub fn body_stream(self) -> (r: Self)
        ensures
            r@ == (PutObjectModel { body: BodyModel::Stream(None), ..self@ }),
    {
        let mut q = self;
        q.body = AsyncBody::Stream { content_length: None };
        q
    }

    /// Marks the body as a stream of known length.
    pub fn body_stream_sized(self, content_length: u64) -> (r: Self)
        ensures
            r@ == (PutObjectModel {
                content_length: Some(content_length),
                body: BodyModel::Stream(None),
                ..self@
            }),
    {
        let mut q = self;
        q.content_length = Some(content_length);
        q.body_stream()
    }

    /// The request to send, as `put_plan` describes it. Every header value
    /// it carries is a header value.
    pub fn prepare(self) -> (r: Result<PreparedRequest, Error>)
        ensures
            outcome(r, put_plan(self@)),
            r matches Ok(p) ==> all_header_values(p@.headers),
    {
        let ghost m = self@;
        let mut headers = self.headers.to_pairs();
        match &self.checksum {
            Some(c) => c.push_header(&mut headers),
            None => {},
        }
        proof {
            assert(headers.deep_view() =~= put_header_pairs(m.headers) + opt_checksum_headers(m.checksum));
            assert(all_header_values(headers.deep_view()));
        }
        let body = match self.body {
            AsyncBody::Empty => {
                validate_content_length_matches_body(self.content_length, 0, "put_object")?;
                let b: Vec<u8> = Vec::new();
                AsyncBody::Bytes(b)
            },
            AsyncBody::Bytes(b) => {
                validate_content_length_matches_body(self.content_length, b.len(), "put_object")?;
                AsyncBody::Bytes(b)
            },
            AsyncBody::Stream { .. } => {
                match self.content_length {
                    Some(n) => AsyncBody::Stream { content_length: Some(n) },
                    None => {
                        return Err(Error::invalid_config("streaming put requires content_length"));
                    },
                }
            },
        };
        let r = PreparedRequest {
            method: HttpMethod::Put,
            bucket: self.bucket,
            key: Some(self.key),
            query: Vec::new(),
            headers,
            body,
        };
        proof {
            assert(r@.query =~= Seq::<(Seq<char>, Seq<char>)>::empty());
            assert(put_plan(m) is Ok);
            assert(r@ =~= put_plan(m)->Ok_0);
        }
        Ok(r)
    }
}

// ---------------------------------------------------------------- batch DELETE

/// One object named by a batch delete: key and optional version id.
pub type DeleteEntry = (Seq<char>, Option<Seq<char>>);

/// A batch delete as plain values.
#[verifier::ext_equal]
pub struct DeleteObjectsModel {
    pub bucket: Seq<char>,
    pub objects: Seq<DeleteEntry>,
    pub quiet: bool,
}

/// Adding an object to a batch: the key must be acceptable, the version id
/// (when given) a header value, and the batch must name fewer than 1000 objects.
pub open spec fn add_object(objects: Seq<DeleteEntry>, key: Seq<char>, version_id: Option<Seq<char>>) -> Result<Seq<DeleteEntry>, Seq<char>> {
    if !is_object_key(key) {
        Err("invalid object key"@)
    } else if version_id matches Some(v) && !is_header_value(v) {
        Err("invalid version_id"@)
    } else if objects.len() >= MAX_DELETE_OBJECTS_PER_REQUEST {
        Err(batch_full_message())
    } else {
        Ok(objects.push((key, version_id)))
    }
}

/// Adding keys one after another, stopping at the first refusal.
pub open spec fn add_keys(objects: Seq<DeleteEntry>, keys: Seq<Seq<char>>) -> Result<Seq<DeleteEntry>, Seq<char>>
    decreases keys.len(),
{
    if keys.len() == 0 {
        Ok(objects)
    } else {
        match add_keys(objects, keys.drop_last()) {
            Ok(o) => add_object(o, keys.last(), None),
            Err(e) => Err(e),
        }
    }
}

/// Once adding a prefix of the keys is refused, adding all of them is
/// refused the same way.
pub proof fn lemma_add_keys_err(objects: Seq<DeleteEntry>, keys: Seq<Seq<char>>, j: int)
    requires
        0 <= j <= keys.len(),
        add_keys(objects, keys.take(j)) is Err,
    ensures
        add_keys(objects, keys) == add_keys(objects, keys.take(j)),
    decreases keys.len() - j,
{
    if j < keys.len() {
        assert(keys.take(j + 1).drop_last() =~= keys.take(j));
        lemma_add_keys_err(objects, keys, j + 1);
    } else {
        assert(keys.take(j) =~= keys);
    }
}

/// A batch never grows past 1000 objects: adding keys to a batch of at most
/// 1000 objects, when accepted, leaves at most 1000.
pub proof fn law_batch_stays_within_limit(objects: Seq<DeleteEntry>, keys: Seq<Seq<char>>)
    requires
        objects.len() <= MAX_DELETE_OBJECTS_PER_REQUEST,
    ensures
        add_keys(objects, keys) matches Ok(o) ==> o.len() <= MAX_DELETE_OBJECTS_PER_REQUEST,
    decreases keys.len(),
{
    if keys.len() > 0 {
        law_batch_stays_within_limit(objects, keys.drop_last());
    }
}

/// The texts of a list of strings.
pub open spec fn texts(s: Seq<String>) -> Seq<Seq<char>> {
    Seq::new(s.len(), |i: int| s[i]@)
}

/// The request's view after an addition with outcome `o`.
pub open spec fn batch_outcome(r: Result<DeleteObjectsRequest, Error>, m: DeleteObjectsModel, o: Result<Seq<DeleteEntry>, Seq<char>>) -> bool {
    match (r, o) {
        (Ok(q), Ok(objects)) => q@ == (DeleteObjectsModel { objects, ..m }),
        (Err(e), Err(msg)) => is_config_error(e, msg),
        _ => false,
    }
}

/// What preparing a batch delete gives: a POST of the XML list to
/// `?delete`, with its content type and `Content-MD5`; a batch must name
/// at least one object.
pub open spec fn delete_objects_plan(m: DeleteObjectsModel) -> Result<RequestPlan, Seq<char>> {
    if m.objects.len() == 0 {
        Err("delete_objects requires at least one object"@)
    } else {
        Ok(RequestPlan {
            method: HttpMethod::Post,
            bucket: m.bucket,
            key: None,
            query: seq![("delete"@, Seq::empty())],
            headers: seq![
                ("content-type"@, "application/xml"@),
                ("content-md5"@, content_md5_text(vstd::utf8::encode_utf8(delete_xml(m.objects, m.quiet)))),
            ],
            body: BodyModel::Bytes(vstd::utf8::encode_utf8(delete_xml(m.objects, m.quiet))),
        })
    }
}

/// Request builder for deleting multiple objects.
pub struct DeleteObjectsRequest {
    bucket: String,
    objects: Vec<DeleteObjectIdentifier>,
    quiet: bool,
}

impl View for DeleteObjectsRequest {
    type V = DeleteObjectsModel;

    closed spec fn view(&self) -> DeleteObjectsModel {
        DeleteObjectsModel { bucket: self.bucket@, objects: ids_view(self.objects@), quiet: self.quiet }
    }
}

impl DeleteObjectsRequest {
    /// Adds an object key to delete.
    pub fn object(self, key: &str) -> (r: Result<Self, Error>)
        ensures
            batch_outcome(r, self@, add_object(self@.objects, key@, None)),
    {
        let o = DeleteObjectIdentifier::new(key)?;
        let mut q = self;
        push_delete_object(&mut q.objects, o)?;
        Ok(q)
    }

    /// Adds an object key and version id to delete.
    pub fn object_with_version(self, key: &str, version_id: &str) -> (r: Result<Self, Error>)
        ensures
            batch_outcome(r, self@, add_object(self@.objects, key@, Some(version_id@))),
    {
        let o = DeleteObjectIdentifier::new(key)?.with_version_id(version_id)?;
        let mut q = self;
        push_delete_object(&mut q.objects, o)?;
        Ok(q)
    }

    /// Adds object keys to delete, in order, stopping at the first refusal.
    pub fn objects(self, keys: &[String]) -> (r: Result<Self, Error>)
        ensures
            batch_outcome(r, self@, add_keys(self@.objects, texts(keys@))),
    {
        let ghost m = self@;
        let mut q = self;
        let n = keys.len();
        let mut i: usize = 0;
        while i < n
            invariant
                n == keys@.len(),
                i <= n,
                add_keys(m.objects, texts(keys@).take(i as int)) == Ok::<Seq<DeleteEntry>, Seq<char>>(q@.objects),
                q@.bucket == m.bucket,
                q@.quiet == m.quiet,
                m == self@,
            decreases n - i,
        {
            proof {
                assert(texts(keys@).take(i + 1).drop_last() =~= texts(keys@).take(i as int));
                assert(texts(keys@).take(i + 1).last() == keys@[i as int]@);
            }
            let o = match DeleteObjectIdentifier::new(keys[i].as_str()) {
                Ok(o) => o,
                Err(e) => {
                    proof {
                        lemma_add_keys_err(m.objects, texts(keys@), i + 1);
                    }
                    return Err(e);
                },
            };
            match push_delete_object(&mut q.objects, o) {
                Ok(()) => {},
                Err(e) => {
                    proof {
                        lemma_add_keys_err(m.objects, texts(keys@), i + 1);
                    }
                    return Err(e);
                },
            }
            i += 1;
        }
        proof {
            assert(texts(keys@).take(n as int) =~= texts(keys@));
            assert(q@ =~= (DeleteObjectsModel { objects: q@.objects, ..m }));
        }
        Ok(q)
    }

    /// Toggles quiet response mode.
    pub fn quiet(self, quiet: bool) -> (r: Self)
        ensures
            r@ == (DeleteObjectsModel { quiet, ..self@ }),
    {
        let mut q = self;
        q.quiet = quiet;
        q
    }

    /// The request to send, as `delete_objects_plan` describes it. Every
    /// header value it carries is a header value.
    pub fn prepare(self) -> (r: Result<PreparedRequest, Error>)
        ensures
            outcome(r, delete_objects_plan(self@)),
            r matches Ok(p) ==> all_header_values(p@.headers),
    {
        let ghost m = self@;
        let body = encode_delete_objects(&self.objects, self.quiet)?;
        let bytes = vstd::slice::slice_to_vec(body.as_str().as_bytes());
        let mut headers: Vec<(String, String)> = Vec::new();
        push_pair(&mut headers, "content-type", String::from_str("application/xml"));
        push_pair(&mut headers, "content-md5", content_md5(bytes.as_slice()));
        let mut query: Vec<(String, String)> = Vec::new();
        push_pair(&mut query, "delete", String::new());
        let r = PreparedRequest {
            method: HttpMethod::Post,
            bucket: self.bucket,
            key: None,
            query,
            headers,
            body: AsyncBody::Bytes(bytes),
        };
        proof {
            assert(r@ =~= delete_objects_plan(m)->Ok_0);
            reveal_strlit("application/xml");
            assert(all_header_values(r@.headers));
        }
        Ok(r)
    }
}

// ---------------------------------------------------------------- COPY

/// A copy request as plain values.
#[verifier::ext_equal]
pub struct CopyObjectModel {
    pub source_bucket: Seq<char>,
    pub source_key: Seq<char>,
    pub source_version_id: Option<Seq<char>>,
    pub destination_bucket: Seq<char>,
    pub destination_key: Seq<char>,
    pub replace_metadata: bool,
    pub metadata: Pairs,
    pub content_type: Option<Seq<char>>,
}

/// What preparing a copy gives: a PUT of the destination with the copy
/// source and the metadata headers; the source key must be acceptable.
pub open spec fn copy_plan(m: CopyObjectModel) -> Result<RequestPlan, Seq<char>> {
    if !is_object_key(m.source_key) {
        Err("invalid object key"@)
    } else {
        match copy_metadata_headers(m.replace_metadata, m.content_type, m.metadata) {
            Err(msg) => Err(msg),
            Ok(meta) => Ok(RequestPlan {
                method: HttpMethod::Put,
                bucket: m.destination_bucket,
                key: Some(m.destination_key),
                query: Seq::empty(),
                headers: seq![
                    ("x-amz-copy-source"@, copy_source_text(m.source_bucket, m.source_key, m.source_version_id)),
                ] + meta,
                body: BodyModel::Empty,
            }),
        }
    }
}

/// Request builder for copying an object.
pub struct CopyObjectRequest {
    source_bucket: String,
    source_key: String,
    source_version_id: Option<HeaderText>,
    destination_bucket: String,
    destination_key: String,
    replace_metadata: bool,
    metadata: Metadata,
    content_type: Option<HeaderText>,
}

impl View for CopyObjectRequest {
    type V = CopyObjectModel;

    closed spec fn view(&self) -> CopyObjectModel {
        CopyObjectModel {
            source_bucket: self.source_bucket@,
            source_key: self.source_key@,
            source_version_id: opt_header_text(self.source_version_id),
            destination_bucket: self.destination_bucket@,
            destination_key: self.destination_key@,
            replace_metadata: self.replace_metadata,
            metadata: self.metadata@,
            content_type: opt_header_text(self.content_type),
        }
    }
}

impl CopyObjectRequest {
    /// Sets a source version id to copy.
    pub fn source_version_id(self, version_id: &str) -> (r: Result<Self, Error>)
        ensures
            r is Ok <==> is_header_value(version_id@),
            r matches Ok(q) ==> q@ == (CopyObjectModel { source_version_id: Some(version_id@), ..self@ }),
            r matches Err(e) ==> is_config_error(e, "invalid version_id"@),
    {
        let v = HeaderText::new(version_id, "invalid version_id")?;
        let mut q = self;
        q.source_version_id = Some(v);
        Ok(q)
    }

    /// Replaces metadata on the destination object.
    pub fn replace_metadata(self) -> (r: Self)
        ensures
            r@ == (CopyObjectModel { replace_metadata: true, ..self@ }),
    {
        let mut q = self;
        q.replace_metadata = true;
        q
    }

    /// Adds a user metadata entry.
    pub fn metadata(self, key: &str, value: &str) -> (r: Result<Self, Error>)
        ensures
            r is Ok <==> metadata_accepts(self@.metadata, key@, value@),
            r matches Ok(q) ==> q@ == (CopyObjectModel { metadata: self@.metadata.push((key@, value@)), ..self@ }),
            r matches Err(e) ==> is_config_error(e, metadata_error(key@, value@)),
    {
        let mut q = self;
        q.metadata.push(key, value)?;
        Ok(q)
    }

    /// Sets the Content-Type for the destination object.
    pub fn content_type(self, value: &str) -> (r: Result<Self, Error>)
        ensures
            r is Ok <==> is_header_value(value@),
            r matches Ok(q) ==> q@ == (CopyObjectModel { content_type: Some(value@), ..self@ }),
            r matches Err(e) ==> is_config_error(e, "invalid Content-Type header"@),
    {
        let t = HeaderText::new(value, "invalid Content-Type header")?;
        let mut q = self;
        q.content_type = Some(t);
        Ok(q)
    }

    /// The request to send, as `copy_plan` describes it. Every header
    /// value it carries is a header value.
    pub fn prepare(self) -> (r: Result<PreparedRequest, Error>)
        ensures
            outcome(r, copy_plan(self@)),
            r matches Ok(p) ==> all_header_values(p@.headers),
    {
        let ghost m = self@;
        let version = match &self.source_version_id {
            Some(v) => Some(v.as_str()),
            None => None,
        };
        let source = copy_source_header_value(self.source_bucket.as_str(), self.source_key.as_str(), version);
        let source = match source {
            Ok(s) => s,
            Err(e) => {
                return Err(e);
            },
        };
        let mut headers: Vec<(String, String)> = Vec::new();
        push_pair(&mut headers, "x-amz-copy-source", source);
        let ghost first = headers.deep_view();
        proof {
            assert(all_header_values(first));
        }
        apply_copy_metadata_headers(&mut headers, self.replace_metadata, &self.content_type, &self.metadata)?;
        let r = PreparedRequest {
            method: HttpMethod::Put,
            bucket: self.destination_bucket,
            key: Some(self.destination_key),
            query: Vec::new(),
            headers,
            body: AsyncBody::Empty,
        };
        proof {
            assert(first =~= seq![
                ("x-amz-copy-source"@, copy_source_text(m.source_bucket, m.source_key, m.source_version_id)),
            ]);
            assert(r@ =~= copy_plan(m)->Ok_0);
        }
        Ok(r)
    }
}

/// A delete of one object, or an abort of an upload, succeeded when the
/// response is 204 No Content or any 2xx.
pub open spec fn delete_succeeded(status: u16) -> bool {
    status == 204 || (200 <= status <= 299)
}

/// Decides `delete_succeeded`.
pub fn delete_status_ok(status: u16) -> (b: bool)
    ensures
        b == delete_succeeded(status),
{
    status == 204 || (200 <= status && status <= 299)
}

/// Each condition set on a GET is sent, whether or not a range is: the
/// `If-Match` and `If-None-Match` headers carry exactly the values set, and
/// neither is sent when it was not set; a range and the date conditions,
/// when set, are sent too.
pub proof fn law_get_sends_its_conditions(m: GetObjectModel)
    ensures
        m.conditions.0 matches Some(v) ==> get_plan(m).headers.contains(("if-match"@, v)),
        m.conditions.1 matches Some(v) ==> get_plan(m).headers.contains(("if-none-match"@, v)),
        m.range matches Some(r) ==> get_plan(m).headers.contains(("range"@, opt_range_text(Some(r))->Some_0)),
        m.if_modified_since matches Some(v) ==> get_plan(m).headers.contains(("if-modified-since"@, v)),
        m.if_unmodified_since matches Some(v) ==> get_plan(m).headers.contains(("if-unmodified-since"@, v)),
        forall|i: int| 0 <= i < get_plan(m).headers.len() && (#[trigger] get_plan(m).headers[i]).0 == "if-match"@
            ==> m.conditions.0 == Some(get_plan(m).headers[i].1),
        forall|i: int| 0 <= i < get_plan(m).headers.len() && (#[trigger] get_plan(m).headers[i]).0 == "if-none-match"@
            ==> m.conditions.1 == Some(get_plan(m).headers[i].1),
{
    reveal_strlit("range");
    reveal_strlit("if-match");
    reveal_strlit("if-none-match");
    reveal_strlit("if-modified-since");
    reveal_strlit("if-unmodified-since");
    let h = get_headers(m);
    let r = opt_pair("range"@, opt_range_text(m.range));
    let c1 = opt_pair("if-match"@, m.conditions.0);
    let c2 = opt_pair("if-none-match"@, m.conditions.1);
    let a = opt_pair("if-modified-since"@, m.if_modified_since);
    let b = opt_pair("if-unmodified-since"@, m.if_unmodified_since);
    assert(h =~= r + c1 + c2 + a + b);
    assert("range"@.len() == 5 && "if-match"@.len() == 8 && "if-none-match"@.len() == 13);
    assert("if-modified-since"@.len() == 17 && "if-unmodified-since"@.len() == 19);
    if let Some(v) = m.conditions.0 {
        assert(h[r.len() as int] == ("if-match"@, v));
    }
    if let Some(v) = m.conditions.1 {
        assert(h[(r.len() + c1.len()) as int] == ("if-none-match"@, v));
    }
    if let Some(x) = m.range {
        assert(h[0] == ("range"@, opt_range_text(Some(x))->Some_0));
    }
    if let Some(v) = m.if_modified_since {
        assert(h[(r.len() + c1.len() + c2.len()) as int] == ("if-modified-since"@, v));
    }
    if let Some(v) = m.if_unmodified_since {
        assert(h[(r.len() + c1.len() + c2.len() + a.len()) as int] == ("if-unmodified-since"@, v));
    }
    assert forall|i: int| 0 <= i < h.len() implies ((#[trigger] h[i]).0 == "if-match"@ ==> m.conditions.0 == Some(h[i].1))
        && (h[i].0 == "if-none-match"@ ==> m.conditions.1 == Some(h[i].1)) by {
        let n1 = r.len() as int;
        let n2 = n1 + c1.len();
        let n3 = n2 + c2.len();
        let n4 = n3 + a.len();
        if i < n1 {
            assert(h[i] == r[i]);
        } else if i < n2 {
            assert(h[i] == c1[i - n1]);
        } else if i < n3 {
            assert(h[i] == c2[i - n2]);
        } else if i < n4 {
            assert(h[i] == a[i - n3]);
        } else {
            assert(h[i] == b[i - n4]);
        }
    }
}

/// A copy asked to replace metadata is sent with the REPLACE directive right
/// after its source, with or without a content type or metadata; a copy
/// not asked to carries no directive and is refused if given either.
pub proof fn law_copy_replace_sends_directive(m: CopyObjectModel)
    requires
        is_object_key(m.source_key),
    ensures
        m.replace_metadata ==> (copy_plan(m) matches Ok(p) && p.headers.len() >= 2 && p.headers[0].0
            == "x-amz-copy-source"@ && p.headers[1] == ("x-amz-metadata-directive"@, "REPLACE"@)),
        !m.replace_metadata ==> (copy_plan(m) is Ok <==> (m.content_type is None && m.metadata.len() == 0)),
        !m.replace_metadata ==> (copy_plan(m) matches Ok(p) ==> p.headers.len() == 1),
{
    law_replace_metadata_sends_directive(m.content_type, m.metadata);
    if m.replace_metadata {
        let meta = copy_metadata_headers(true, m.content_type, m.metadata)->Ok_0;
        let h = seq![("x-amz-copy-source"@, copy_source_text(m.source_bucket, m.source_key, m.source_version_id))] + meta;
        assert(h[1] == meta[0]);
    }
}

} // verus!
