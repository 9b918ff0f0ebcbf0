use vstd::prelude::*;
use crate::batch::{
    complete_xml, encode_complete_multipart_upload, has_number, parts_view, prepare_completed_parts,
    push_completed_part, sorted_permutation, unique_numbers, CompletedPart,
};
use crate::common::{
    all_header_values, lemma_header_values_concat, lemma_opt_pair_header,
    law_range_text_is_header_value, metadata_accepts, metadata_error, metadata_headers, opt_header_text, opt_pair, opt_range,
    opt_range_text, push_opt_header, push_opt_range, push_pair, ByteRange, HeaderText, Metadata,
    Pairs,
};
use crate::copy::{copy_source_header_value, copy_source_text};
use crate::error::{Error, is_config_error};
use crate::objects::ObjectsService;
use crate::request::{AsyncBody, BodyModel, HttpMethod, PreparedRequest, RequestPlan, outcome};
use crate::text::{decimal, is_header_value, is_object_key, push_decimal};
use crate::validate::{
    checked, validate_max_parts, validate_part_number_marker, validate_upload_id,
    validate_upload_part_number, MAX_PARTS_LIMIT, MAX_PART_NUMBER,
};

verus! {

impl ObjectsService {
    /// Starts a multipart upload.
    pub fn create_multipart_upload(&self, bucket: &str, key: &str) -> (r: CreateMultipartUploadRequest)
        ensures
            r@ == (CreateMultipartModel { bucket: bucket@, key: key@, content_type: None, metadata: Seq::empty() }),
    {
        CreateMultipartUploadRequest {
            bucket: String::from_str(bucket),
            key: String::from_str(key),
            content_type: None,
            metadata: Metadata::new(),
        }
    }

    /// Starts a request to upload a multipart part, with an empty body.
    pub fn upload_part(&self, bucket: &str, key: &str, upload_id: &str, part_number: u32) -> (r: UploadPartRequest)
        ensures
            r@ == (UploadPartModel {
                bucket: bucket@,
                key: key@,
                upload_id: upload_id@,
                part_number,
                body: BodyModel::Empty,
            }),
    {
        UploadPartRequest {
            bucket: String::from_str(bucket),
            key: String::from_str(key),
            upload_id: String::from_str(upload_id),
            part_number,
            body: AsyncBody::Empty,
        }
    }

    /// Starts a request to copy data into a multipart part.
    pub fn upload_part_copy(
        &self,
        source_bucket: &str,
        source_key: &str,
        destination_bucket: &str,
        destination_key: &str,
        upload_id: &str,
        part_number: u32,
    ) -> (r: UploadPartCopyRequest)
        ensures
            r@ == (UploadPartCopyModel {
                source_bucket: source_bucket@,
                source_key: source_key@,
                source_version_id: None,
                destination_bucket: destination_bucket@,
                destination_key: destination_key@,
                upload_id: upload_id@,
                part_number,
                copy_source_range: None,
            }),
    {
        UploadPartCopyRequest {
            source_bucket: String::from_str(source_bucket),
            source_key: String::from_str(source_key),
            source_version_id: None,
            destination_bucket: String::from_str(destination_bucket),
            destination_key: String::from_str(destination_key),
            upload_id: String::from_str(upload_id),
            part_number,
            copy_source_range: None,
        }
    }

    /// Starts a request to complete a multipart upload, naming no parts yet.
    pub fn complete_multipart_upload(&self, bucket: &str, key: &str, upload_id: &str) -> (r: CompleteMultipartUploadRequest)
        ensures
            r@ == (CompleteMultipartModel { bucket: bucket@, key: key@, upload_id: upload_id@, parts: Seq::empty() }),
    {
        let r = CompleteMultipartUploadRequest {
            bucket: String::from_str(bucket),
            key: String::from_str(key),
            upload_id: String::from_str(upload_id),
            parts: Vec::new(),
        };
        proof {
            assert(parts_view(r.parts@) =~= Seq::<(u32, Seq<char>)>::empty());
        }
        r
    }

    /// Starts a request to abort a multipart upload.
    pub fn abort_multipart_upload(&self, bucket: &str, key: &str, upload_id: &str) -> (r: AbortMultipartUploadRequest)
        ensures
            r@ == (bucket@, key@, upload_id@),
    {
        AbortMultipartUploadRequest {
            bucket: String::from_str(bucket),
            key: String::from_str(key),
            upload_id: String::from_str(upload_id),
        }
    }

    /// Starts a request to list multipart parts.
    pub fn list_parts(&self, bucket: &str, key: &str, upload_id: &str) -> (r: ListPartsRequest)
        ensures
            r@ == (ListPartsModel {
                bucket: bucket@,
                key: key@,
                upload_id: upload_id@,
                max_parts: None,
                part_number_marker: None,
            }),
    {
        ListPartsRequest {
            bucket: String::from_str(bucket),
            key: String::from_str(key),
            upload_id: String::from_str(upload_id),
            max_parts: None,
            part_number_marker: None,
        }
    }
}

/// The `uploadId` query parameter.
pub open spec fn upload_id_query(upload_id: Seq<char>) -> Pairs {
    seq![("uploadId"@, upload_id)]
}

/// The `partNumber` and `uploadId` query parameters.
pub open spec fn part_query(part_number: u32, upload_id: Seq<char>) -> Pairs {
    seq![("partNumber"@, decimal(part_number as nat)), ("uploadId"@, upload_id)]
}

fn part_query_exec(part_number: u32, upload_id: &str) -> (q: Vec<(String, String)>)
    ensures
        q.deep_view() == part_query(part_number, upload_id@),
{
    let mut number = String::new();
    push_decimal(&mut number, part_number as u64);
    let mut q: Vec<(String, String)> = Vec::new();
    push_pair(&mut q, "partNumber", number);
    push_pair(&mut q, "uploadId", String::from_str(upload_id));
    proof {
        assert(q.deep_view() =~= part_query(part_number, upload_id@));
    }
    q
}

// ---------------------------------------------------------------- create

/// A request to start a multipart upload, as plain values.
#[verifier::ext_equal]
pub struct CreateMultipartModel {
    pub bucket: Seq<char>,
    pub key: Seq<char>,
    pub content_type: Option<Seq<char>>,
    pub metadata: Pairs,
}

/// The prepared request: a POST to `?uploads` with the content type and metadata headers.
pub open spec fn create_multipart_plan(m: CreateMultipartModel) -> RequestPlan {
    RequestPlan {
        method: HttpMethod::Post,
        bucket: m.bucket,
        key: Some(m.key),
        query: seq![("uploads"@, Seq::empty())],
        headers: opt_pair("content-type"@, m.content_type) + metadata_headers(m.metadata),
        body: BodyModel::Empty,
    }
}

/// Request builder for initiating a multipart upload.
pub struct CreateMultipartUploadRequest {
    bucket: String,
    key: String,
    content_type: Option<HeaderText>,
    metadata: Metadata,
}

impl View for CreateMultipartUploadRequest {
    type V = CreateMultipartModel;

    closed spec fn view(&self) -> CreateMultipartModel {
        CreateMultipartModel {
            bucket: self.bucket@,
            key: self.key@,
            content_type: opt_header_text(self.content_type),
            metadata: self.metadata@,
        }
    }
}

impl CreateMultipartUploadRequest {
    /// Sets the Content-Type header.
    pub fn content_type(self, value: &str) -> (r: Result<Self, Error>)
        ensures
            r is Ok <==> is_header_value(value@),
            r matches Ok(q) ==> q@ == (CreateMultipartModel { content_type: Some(value@), ..self@ }),
            r matches Err(e) ==> is_config_error(e, "invalid Content-Type header"@),
    {
        let t = HeaderText::new(value, "invalid Content-Type header")?;
        let mut q = self;
        q.content_type = Some(t);
        Ok(q)
    }

    /// Adds a user metadata entry.
    pub fn metadata(self, key: &str, value: &str) -> (r: Result<Self, Error>)
        ensures
            r is Ok <==> metadata_accepts(self@.metadata, key@, value@),
            r matches Ok(q) ==> q@ == (CreateMultipartModel { metadata: self@.metadata.push((key@, value@)), ..self@ }),
            r matches Err(e) ==> is_config_error(e, metadata_error(key@, value@)),
    {
        let mut q = self;
        q.metadata.push(key, value)?;
        Ok(q)
    }

    /// The request to send, as `create_multipart_plan` describes it. Every
    /// header value it carries is a header value.
    pub fn prepare(self) -> (r: PreparedRequest)
        ensures
            r@ == create_multipart_plan(self@),
            all_header_values(r@.headers),
    {
        let ghost m = self@;
        let mut headers: Vec<(String, String)> = Vec::new();
        proof {
            assert(headers.deep_view() =~= Seq::<(Seq<char>, Seq<char>)>::empty());
        }
        push_opt_header(&mut headers, "content-type", &self.content_type);
        self.metadata.push_headers(&mut headers);
        let mut query: Vec<(String, String)> = Vec::new();
        push_pair(&mut query, "uploads", String::new());
        let r = PreparedRequest {
            method: HttpMethod::Post,
            bucket: self.bucket,
            key: Some(self.key),
            query,
            headers,
            body: AsyncBody::Empty,
        };
        proof {
            assert(r@ =~= create_multipart_plan(m));
            lemma_opt_pair_header("content-type"@, m.content_type);
            lemma_header_values_concat(opt_pair("content-type"@, m.content_type), metadata_headers(m.metadata));
        }
        r
    }
}

// ---------------------------------------------------------------- upload part

/// A part upload as plain values.
#[verifier::ext_equal]
pub struct UploadPartModel {
    pub bucket: Seq<char>,
    pub key: Seq<char>,
    pub upload_id: Seq<char>,
    pub part_number: u32,
    pub body: BodyModel,
}

/// The message for a body that a part upload cannot send, if any.
pub open spec fn part_body_problem(body: BodyModel) -> Option<Seq<char>> {
    match body {
        BodyModel::Empty => Some("upload_part requires a request body"@),
        BodyModel::Stream(None) => Some("streaming upload_part requires content_length"@),
        _ => None,
    }
}

/// A part upload needs a body: bytes, or a stream of known length.
pub fn validate_upload_part_body(body: &AsyncBody) -> (r: Result<(), Error>)
    ensures
        r is Ok <==> part_body_problem(body@) is None,
        r matches Err(e) ==> is_config_error(e, part_body_problem(body@)->Some_0),
{
    match body {
        AsyncBody::Empty => Err(Error::invalid_config("upload_part requires a request body")),
        AsyncBody::Stream { content_length: None } => Err(
            Error::invalid_config("streaming upload_part requires content_length"),
        ),
        _ => Ok(()),
    }
}

/// What preparing a part upload gives: the body is checked first, then the
/// part number, then the upload id; then a PUT with `partNumber` and `uploadId`.
pub open spec fn upload_part_plan(m: UploadPartModel) -> Result<RequestPlan, Seq<char>> {
    if part_body_problem(m.body) is Some {
        Err(part_body_problem(m.body)->Some_0)
    } else if !(1 <= m.part_number <= MAX_PART_NUMBER) {
        Err("part_number must be between 1 and 10000"@)
    } else if !is_header_value(m.upload_id) {
        Err("invalid upload_id"@)
    } else {
        Ok(RequestPlan {
            method: HttpMethod::Put,
            bucket: m.bucket,
            key: Some(m.key),
            query: part_query(m.part_number, m.upload_id),
            headers: Seq::empty(),
            body: m.body,
        })
    }
}

/// Request builder for uploading a multipart part.
pub struct UploadPartRequest {
    bucket: String,
    key: String,
    upload_id: String,
    part_number: u32,
    body: AsyncBody,
}

impl View for UploadPartRequest {
    type V = UploadPartModel;

    closed spec fn view(&self) -> UploadPartModel {
        UploadPartModel {
            bucket: self.bucket@,
            key: self.key@,
            upload_id: self.upload_id@,
            part_number: self.part_number,
            body: self.body@,
        }
    }
}

impl UploadPartRequest {
    /// Sets the request body from bytes.
    pub fn body_bytes(self, body: Vec<u8>) -> (r: Self)
        ensures
            r@ == (UploadPartModel { body: BodyModel::Bytes(body@), ..self@ }),
    {
        let mut q = self;
        q.body = AsyncBody::Bytes(body);
        q
    }

    /// Marks the body as a stream of known length, supplied when sending.
    pub fn body_stream_sized(self, content_length: u64) -> (r: Self)
        ensures
            r@ == (UploadPartModel { body: BodyModel::Stream(Some(content_length)), ..self@ }),
    {
        let mut q = self;
        q.body = AsyncBody::Stream { content_length: Some(content_length) };
        q
    }

    /// The request to send, as `upload_part_plan` describes it.
    pub fn prepare(self) -> (r: Result<PreparedRequest, Error>)
        ensures
            outcome(r, upload_part_plan(self@)),
    {
        let ghost m = self@;
        validate_upload_part_body(&self.body)?;
        validate_upload_part_number(self.part_number)?;
        validate_upload_id(self.upload_id.as_str())?;
        let query = part_query_exec(self.part_number, self.upload_id.as_str());
        let r = PreparedRequest {
            method: HttpMethod::Put,
            bucket: self.bucket,
            key: Some(self.key),
            query,
            headers: Vec::new(),
            body: self.body,
        };
        proof {
            assert(r@ =~= upload_part_plan(m)->Ok_0);
        }
        Ok(r)
    }
}

// ---------------------------------------------------------------- upload part copy

/// A part copy as plain values.
#[verifier::ext_equal]
pub struct UploadPartCopyModel {
    pub source_bucket: Seq<char>,
    pub source_key: Seq<char>,
    pub source_version_id: Option<Seq<char>>,
    pub destination_bucket: Seq<char>,
    pub destination_key: Seq<char>,
    pub upload_id: Seq<char>,
    pub part_number: u32,
    pub copy_source_range: Option<(u64, u64)>,
}

/// What preparing a part copy gives: the part number, the upload id and the
/// source key are checked in turn; then a PUT with the copy source (and
/// range) headers and `partNumber` and `uploadId`.
pub open spec fn upload_part_copy_plan(m: UploadPartCopyModel) -> Result<RequestPlan, Seq<char>> {
    if !(1 <= m.part_number <= MAX_PART_NUMBER) {
        Err("part_number must be between 1 and 10000"@)
    } else if !is_header_value(m.upload_id) {
        Err("invalid upload_id"@)
    } else if !is_object_key(m.source_key) {
        Err("invalid object key"@)
    } else {
        Ok(RequestPlan {
            method: HttpMethod::Put,
            bucket: m.destination_bucket,
            key: Some(m.destination_key),
            query: part_query(m.part_number, m.upload_id),
            headers: seq![
                ("x-amz-copy-source"@, copy_source_text(m.source_bucket, m.source_key, m.source_version_id)),
            ] + opt_pair("x-amz-copy-source-range"@, opt_range_text(m.copy_source_range)),
            body: BodyModel::Empty,
        })
    }
}

/// Request builder for uploading a copied multipart part.
pub struct UploadPartCopyRequest {
    source_bucket: String,
    source_key: String,
    source_version_id: Option<HeaderText>,
    destination_bucket: String,
    destination_key: String,
    upload_id: String,
    part_number: u32,
    copy_source_range: Option<ByteRange>,
}

impl View for UploadPartCopyRequest {
    type V = UploadPartCopyModel;

    closed spec fn view(&self) -> UploadPartCopyModel {
        UploadPartCopyModel {
            source_bucket: self.source_bucket@,
            source_key: self.source_key@,
            source_version_id: opt_header_text(self.source_version_id),
            destination_bucket: self.destination_bucket@,
            destination_key: self.destination_key@,
            upload_id: self.upload_id@,
            part_number: self.part_number,
            copy_source_range: opt_range(self.copy_source_range),
        }
    }
}

impl UploadPartCopyRequest {
    /// Sets the source version id to copy.
    pub fn source_version_id(self, version_id: &str) -> (r: Result<Self, Error>)
        ensures
            r is Ok <==> is_header_value(version_id@),
            r matches Ok(q) ==> q@ == (UploadPartCopyModel { source_version_id: Some(version_id@), ..self@ }),
            r matches Err(e) ==> is_config_error(e, "invalid version_id"@),
    {
        let v = HeaderText::new(version_id, "invalid version_id")?;
        let mut q = self;
        q.source_version_id = Some(v);
        Ok(q)
    }

    /// Sets a byte range of the copy source; rejected when `start` exceeds `end_inclusive`.
    pub fn copy_source_range_bytes(self, start: u64, end_inclusive: u64) -> (r: Result<Self, Error>)
        ensures
            r is Ok <==> start <= end_inclusive,
            r matches Ok(q) ==> q@ == (UploadPartCopyModel {
                copy_source_range: Some((start, end_inclusive)),
                ..self@
            }),
            r matches Err(e) ==> is_config_error(e, "invalid byte range: start must not exceed end"@),
    {
        let range = ByteRange::new(start, end_inclusive)?;
        let mut q = self;
        q.copy_source_range = Some(range);
        Ok(q)
    }

    /// The request to send, as `upload_part_copy_plan` describes it. Every
    /// header value it carries is a header value.
    pub fn prepare(self) -> (r: Result<PreparedRequest, Error>)
        ensures
            outcome(r, upload_part_copy_plan(self@)),
            r matches Ok(p) ==> all_header_values(p@.headers),
    {
        let ghost m = self@;
        validate_upload_part_number(self.part_number)?;
        validate_upload_id(self.upload_id.as_str())?;
        let version = match &self.source_version_id {
            Some(v) => Some(v.as_str()),
            None => None,
        };
        let source = copy_source_header_value(self.source_bucket.as_str(), self.source_key.as_str(), version)?;
        let mut headers: Vec<(String, String)> = Vec::new();
        push_pair(&mut headers, "x-amz-copy-source", source);
        let ghost first = headers.deep_view();
        push_opt_range(&mut headers, "x-amz-copy-source-range", &self.copy_source_range);
        let query = part_query_exec(self.part_number, self.upload_id.as_str());
        let r = PreparedRequest {
            method: HttpMethod::Put,
            bucket: self.destination_bucket,
            key: Some(self.destination_key),
            query,
            headers,
            body: AsyncBody::Empty,
        };
        proof {
            assert(first =~= seq![
                ("x-amz-copy-source"@, copy_source_text(m.source_bucket, m.source_key, m.source_version_id)),
            ]);
            assert(r@ =~= upload_part_copy_plan(m)->Ok_0);
            if let Some(rg) = m.copy_source_range {
                law_range_text_is_header_value(rg.0, rg.1);
            }
            assert(all_header_values(r@.headers));
        }
        Ok(r)
    }
}

// ---------------------------------------------------------------- complete

/// A completion request as plain values.
#[verifier::ext_equal]
pub struct CompleteMultipartModel {
    pub bucket: Seq<char>,
    pub key: Seq<char>,
    pub upload_id: Seq<char>,
    pub parts: Seq<(u32, Seq<char>)>,
}

/// Adding a part: refused when a part with its number is present.
pub open spec fn add_part(parts: Seq<(u32, Seq<char>)>, p: (u32, Seq<char>)) -> Result<Seq<(u32, Seq<char>)>, Seq<char>> {
    if has_number(parts, p.0) {
        Err("part numbers must be unique"@)
    } else {
        Ok(parts.push(p))
    }
}

/// Adding a part given by number and ETag: the number must be 1 to 10000
/// and the ETag a header value, then as `add_part`.
pub open spec fn add_new_part(parts: Seq<(u32, Seq<char>)>, part_number: u32, etag: Seq<char>) -> Result<Seq<(u32, Seq<char>)>, Seq<char>> {
    if !(1 <= part_number <= MAX_PART_NUMBER) {
        Err("part_number must be between 1 and 10000"@)
    } else if !is_header_value(etag) {
        Err("invalid part etag"@)
    } else {
        add_part(parts, (part_number, etag))
    }
}

/// Adding parts one after another, stopping at the first refusal.
pub open spec fn add_parts(parts: Seq<(u32, Seq<char>)>, more: Seq<(u32, Seq<char>)>) -> Result<Seq<(u32, Seq<char>)>, Seq<char>>
    decreases more.len(),
{
    if more.len() == 0 {
        Ok(parts)
    } else {
        match add_parts(parts, more.drop_last()) {
            Ok(p) => add_part(p, more.last()),
            Err(e) => Err(e),
        }
    }
}

/// Part numbers stay unique: adding parts to a list without repeated
/// numbers, when accepted, gives a list without repeated numbers.
pub proof fn law_added_parts_stay_unique(parts: Seq<(u32, Seq<char>)>, more: Seq<(u32, Seq<char>)>)
    requires
        unique_numbers(parts),
    ensures
        add_parts(parts, more) matches Ok(p) ==> unique_numbers(p),
    decreases more.len(),
{
    if more.len() > 0 {
        law_added_parts_stay_unique(parts, more.drop_last());
        if let Ok(p0) = add_parts(parts, more.drop_last()) {
            let x = more.last();
            if !has_number(p0, x.0) {
                let p1 = p0.push(x);
                assert forall|i: int, j: int| 0 <= i < j < p1.len() implies #[trigger] p1[i].0 != #[trigger] p1[j].0 by {
                    if j == p0.len() {
                        assert(p1[i] == p0[i]);
                    } else {
                        assert(p1[i] == p0[i]);
                        assert(p1[j] == p0[j]);
                    }
                }
            }
        }
    }
}

/// A part listing whose upload id is a header value and whose limits were
/// accepted by their setters is prepared without error.
pub proof fn law_accepted_part_listing_prepares(m: ListPartsModel)
    requires
        is_header_value(m.upload_id),
        m.max_parts matches Some(v) ==> 1 <= v <= MAX_PARTS_LIMIT,
        m.part_number_marker matches Some(v) ==> 1 <= v <= MAX_PART_NUMBER,
    ensures
        list_parts_plan(m) is Ok,
{
}

/// Once adding a prefix of the parts is refused, adding all is refused the same way.
pub proof fn lemma_add_parts_err(parts: Seq<(u32, Seq<char>)>, more: Seq<(u32, Seq<char>)>, j: int)
    requires
        0 <= j <= more.len(),
        add_parts(parts, more.take(j)) is Err,
    ensures
        add_parts(parts, more) == add_parts(parts, more.take(j)),
    decreases more.len() - j,
{
    if j < more.len() {
        assert(more.take(j + 1).drop_last() =~= more.take(j));
        lemma_add_parts_err(parts, more, j + 1);
    } else {
        assert(more.take(j) =~= more);
    }
}

/// The message with which a completion is refused, if it is.
pub open spec fn complete_problem(m: CompleteMultipartModel) -> Option<Seq<char>> {
    if !is_header_value(m.upload_id) {
        Some("invalid upload_id"@)
    } else if m.parts.len() == 0 {
        Some("complete_multipart_upload requires at least one part"@)
    } else if !unique_numbers(m.parts) {
        Some("part numbers must be unique"@)
    } else {
        None
    }
}

/// A completion request with its parts in the order `sorted`.
pub open spec fn complete_request(m: CompleteMultipartModel, sorted: Seq<(u32, Seq<char>)>) -> RequestPlan {
    RequestPlan {
        method: HttpMethod::Post,
        bucket: m.bucket,
        key: Some(m.key),
        query: upload_id_query(m.upload_id),
        headers: seq![("content-type"@, "application/xml"@)],
        body: BodyModel::Bytes(vstd::utf8::encode_utf8(complete_xml(sorted))),
    }
}

/// Request builder for completing a multipart upload.
pub struct CompleteMultipartUploadRequest {
    bucket: String,
    key: String,
    upload_id: String,
    parts: Vec<CompletedPart>,
}

impl View for CompleteMultipartUploadRequest {
    type V = CompleteMultipartModel;

    closed spec fn view(&self) -> CompleteMultipartModel {
        CompleteMultipartModel {
            bucket: self.bucket@,
            key: self.key@,
            upload_id: self.upload_id@,
            parts: parts_view(self.parts@),
        }
    }
}

/// The request's view after an addition with outcome `o`.
pub open spec fn parts_outcome(
    r: Result<CompleteMultipartUploadRequest, Error>,
    m: CompleteMultipartModel,
    o: Result<Seq<(u32, Seq<char>)>, Seq<char>>,
) -> bool {
    match (r, o) {
        (Ok(q), Ok(parts)) => q@ == (CompleteMultipartModel { parts, ..m }),
        (Err(e), Err(msg)) => is_config_error(e, msg),
        _ => false,
    }
}

impl CompleteMultipartUploadRequest {
    /// Adds a completed part by number and ETag.
    pub fn part(self, part_number: u32, etag: &str) -> (r: Result<Self, Error>)
        ensures
            parts_outcome(r, self@, add_new_part(self@.parts, part_number, etag@)),
    {
        let p = CompletedPart::new(part_number, etag)?;
        let mut q = self;
        push_completed_part(&mut q.parts, p)?;
        Ok(q)
    }

    /// Adds parts, in order, stopping at the first whose number is taken.
    pub fn parts(self, parts: Vec<CompletedPart>) -> (r: Result<Self, Error>)
        ensures
            parts_outcome(r, self@, add_parts(self@.parts, parts_view(parts@))),
    {
        let ghost m = self@;
        let ghost more = parts_view(parts@);
        let mut q = self;
        let mut rest = parts;
        let n = rest.len();
        proof {
            assert(more.skip(0) =~= more);
        }
        let mut i: usize = 0;
        while i < n
            invariant
                n == more.len(),
                i <= n,
                parts_view(rest@) == more.skip(i as int),
                rest@.len() == n - i,
                add_parts(m.parts, more.take(i as int)) == Ok::<Seq<(u32, Seq<char>)>, Seq<char>>(q@.parts),
                q@.bucket == m.bucket,
                q@.key == m.key,
                q@.upload_id == m.upload_id,
                m == self@,
                more == parts_view(parts@),
            decreases n - i,
        {
            let ghost before = rest@;
            let p = rest.remove(0);
            proof {
                assert(parts_view(before)[0] == before[0]@);
                assert(more.skip(i as int)[0] == more[i as int]);
                assert(p@ == more[i as int]);
                assert forall|j: int| 0 <= j < rest@.len() implies #[trigger] parts_view(rest@)[j] == more.skip(i + 1)[j] by {
                    assert(rest@[j] == before[j + 1]);
                    assert(parts_view(before)[j + 1] == before[j + 1]@);
                    assert(more.skip(i as int)[j + 1] == more[i + 1 + j]);
                }
                assert(parts_view(rest@) =~= more.skip(i + 1));
                assert(more.take(i + 1).drop_last() =~= more.take(i as int));
                assert(more.take(i + 1).last() == more[i as int]);
            }
            match push_completed_part(&mut q.parts, p) {
                Ok(()) => {},
                Err(e) => {
                    proof {
                        lemma_add_parts_err(m.parts, more, i + 1);
                    }
                    return Err(e);
                },
            }
            i += 1;
        }
        proof {
            assert(more.take(n as int) =~= more);
            assert(q@ =~= (CompleteMultipartModel { parts: q@.parts, ..m }));
        }
        Ok(q)
    }

    /// The request to send: refused as `complete_problem` says, or a POST
    /// of the XML list of the parts, ordered by part number, to `?uploadId=`.
    pub fn prepare(self) -> (r: Result<PreparedRequest, Error>)
        ensures
            complete_problem(self@) is Some <==> r is Err,
            r matches Err(e) ==> is_config_error(e, complete_problem(self@)->Some_0),
            r matches Ok(p) ==> exists|sorted: Seq<(u32, Seq<char>)>|
                sorted_permutation(self@.parts, sorted) && p@ == complete_request(self@, sorted),
            r matches Ok(p) ==> all_header_values(p@.headers),
    {
        let ghost m = self@;
        validate_upload_id(self.upload_id.as_str())?;
        let parts = prepare_completed_parts(self.parts)?;
        let body = encode_complete_multipart_upload(&parts);
        let bytes = vstd::slice::slice_to_vec(body.as_str().as_bytes());
        let mut headers: Vec<(String, String)> = Vec::new();
        push_pair(&mut headers, "content-type", String::from_str("application/xml"));
        let mut query: Vec<(String, String)> = Vec::new();
        push_pair(&mut query, "uploadId", self.upload_id);
        let r = PreparedRequest {
            method: HttpMethod::Post,
            bucket: self.bucket,
            key: Some(self.key),
            query,
            headers,
            body: AsyncBody::Bytes(bytes),
        };
        proof {
            let sorted = parts_view(parts@);
            assert(r@ =~= complete_request(m, sorted));
            reveal_strlit("application/xml");
            assert(all_header_values(r@.headers));
        }
        Ok(r)
    }
}

// ---------------------------------------------------------------- abort

/// What preparing an abort gives: a DELETE with `uploadId`; the upload id must be a header value.
pub open spec fn abort_plan(m: (Seq<char>, Seq<char>, Seq<char>)) -> Result<RequestPlan, Seq<char>> {
    if !is_header_value(m.2) {
        Err("invalid upload_id"@)
    } else {
        Ok(RequestPlan {
            method: HttpMethod::Delete,
            bucket: m.0,
            key: Some(m.1),
            query: upload_id_query(m.2),
            headers: Seq::empty(),
            body: BodyModel::Empty,
        })
    }
}

/// Request builder for aborting a multipart upload.
pub struct AbortMultipartUploadRequest {
    bucket: String,
    key: String,
    upload_id: String,
}

impl View for AbortMultipartUploadRequest {
    type V = (Seq<char>, Seq<char>, Seq<char>);

    closed spec fn view(&self) -> (Seq<char>, Seq<char>, Seq<char>) {
        (self.bucket@, self.key@, self.upload_id@)
    }
}

impl AbortMultipartUploadRequest {
    /// The request to send, as `abort_plan` describes it.
    pub fn prepare(self) -> (r: Result<PreparedRequest, Error>)
        ensures
            outcome(r, abort_plan(self@)),
    {
        let ghost m = self@;
        validate_upload_id(self.upload_id.as_str())?;
        let mut query: Vec<(String, String)> = Vec::new();
        push_pair(&mut query, "uploadId", self.upload_id);
        let r = PreparedRequest {
            method: HttpMethod::Delete,
            bucket: self.bucket,
            key: Some(self.key),
            query,
            headers: Vec::new(),
            body: AsyncBody::Empty,
        };
        proof {
            assert(r@ =~= abort_plan(m)->Ok_0);
        }
        Ok(r)
    }
}

// ---------------------------------------------------------------- list parts

/// A part listing as plain values.
#[verifier::ext_equal]
pub struct ListPartsModel {
    pub bucket: Seq<char>,
    pub key: Seq<char>,
    pub upload_id: Seq<char>,
    pub max_parts: Option<u32>,
    pub part_number_marker: Option<u32>,
}

/// An optional number rendered as a query value.
pub open spec fn opt_decimal(o: Option<u32>) -> Option<Seq<char>> {
    match o {
        Some(v) => Some(decimal(v as nat)),
        None => None,
    }
}

/// What preparing a part listing gives: the upload id, `max-parts` and the
/// marker are checked in turn; then a GET with `uploadId`, `max-parts` and
/// `part-number-marker`.
pub open spec fn list_parts_plan(m: ListPartsModel) -> Result<RequestPlan, Seq<char>> {
    if !is_header_value(m.upload_id) {
        Err("invalid upload_id"@)
    } else if m.max_parts matches Some(v) && !(1 <= v <= MAX_PARTS_LIMIT) {
        Err("max_parts must be between 1 and 1000"@)
    } else if m.part_number_marker matches Some(v) && !(1 <= v <= MAX_PART_NUMBER) {
        Err("part_number_marker must be between 1 and 10000"@)
    } else {
        Ok(RequestPlan {
            method: HttpMethod::Get,
            bucket: m.bucket,
            key: Some(m.key),
            query: upload_id_query(m.upload_id) + opt_pair("max-parts"@, opt_decimal(m.max_parts))
                + opt_pair("part-number-marker"@, opt_decimal(m.part_number_marker)),
            headers: Seq::empty(),
            body: BodyModel::Empty,
        })
    }
}

/// Request builder for listing multipart parts.
pub struct ListPartsRequest {
    bucket: String,
    key: String,
    upload_id: String,
    max_parts: Option<u32>,
    part_number_marker: Option<u32>,
}

impl View for ListPartsRequest {
    type V = ListPartsModel;

    closed spec fn view(&self) -> ListPartsModel {
        ListPartsModel {
            bucket: self.bucket@,
            key: self.key@,
            upload_id: self.upload_id@,
            max_parts: self.max_parts,
            part_number_marker: self.part_number_marker,
        }
    }
}

fn push_opt_decimal(list: &mut Vec<(String, String)>, name: &str, value: Option<u32>)
    ensures
        final(list).deep_view() == old(list).deep_view() + opt_pair(name@, opt_decimal(value)),
{
    match value {
        Some(v) => {
            let mut s = String::new();
            push_decimal(&mut s, v as u64);
            push_pair(list, name, s);
        },
        None => {},
    }
    proof {
        assert(list.deep_view() =~= old(list).deep_view() + opt_pair(name@, opt_decimal(value)));
    }
}

impl ListPartsRequest {
    /// Sets the maximum number of parts to return (1 to 1000).
    pub fn max_parts(self, value: u32) -> (r: Result<Self, Error>)
        ensures
            r is Ok <==> 1 <= value <= MAX_PARTS_LIMIT,
            r matches Ok(q) ==> q@ == (ListPartsModel { max_parts: Some(value), ..self@ }),
            r matches Err(e) ==> is_config_error(e, "max_parts must be between 1 and 1000"@),
    {
        validate_max_parts(value)?;
        let mut q = self;
        q.max_parts = Some(value);
        Ok(q)
    }

    /// Sets the part number marker for pagination (1 to 10000).
    pub fn part_number_marker(self, value: u32) -> (r: Result<Self, Error>)
        ensures
            r is Ok <==> 1 <= value <= MAX_PART_NUMBER,
            r matches Ok(q) ==> q@ == (ListPartsModel { part_number_marker: Some(value), ..self@ }),
            r matches Err(e) ==> is_config_error(e, "part_number_marker must be between 1 and 10000"@),
    {
        validate_part_number_marker(value)?;
        let mut q = self;
        q.part_number_marker = Some(value);
        Ok(q)
    }

    /// The request to send, as `list_parts_plan` describes it.
    pub fn prepare(self) -> (r: Result<PreparedRequest, Error>)
        ensures
            outcome(r, list_parts_plan(self@)),
    {
        let ghost m = self@;
        validate_upload_id(self.upload_id.as_str())?;
        let mut query: Vec<(String, String)> = Vec::new();
        push_pair(&mut query, "uploadId", String::from_str(self.upload_id.as_str()));
        match self.max_parts {
            Some(v) => {
                validate_max_parts(v)?;
            },
            None => {},
        }
        match self.part_number_marker {
            Some(v) => {
                validate_part_number_marker(v)?;
            },
            None => {},
        }
        push_opt_decimal(&mut query, "max-parts", self.max_parts);
        push_opt_decimal(&mut query, "part-number-marker", self.part_number_marker);
        let r = PreparedRequest {
            method: HttpMethod::Get,
            bucket: self.bucket,
            key: Some(self.key),
            query,
            headers: Vec::new(),
            body: AsyncBody::Empty,
        };
        proof {
            assert(r@ =~= list_parts_plan(m)->Ok_0);
        }
        Ok(r)
    }
}

} // verus!
