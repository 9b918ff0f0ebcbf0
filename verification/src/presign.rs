use std::time::Duration;
use vstd::prelude::*;
use crate::common::{metadata_accepts, metadata_error, metadata_header_name, metadata_headers, push_pair, Metadata, Pairs};
use crate::error::{Error, is_config_error};
use crate::objects::ObjectsService;
use crate::text::{
    check_header_text, check_no_controls, check_token, eq_ignore_case, eq_ignore_case_exec,
    has_no_controls, is_header_value, is_token, lower, push_lower,
};
use crate::validate::checked;

verus! {

/// Declares http's `Method` so that a presign builder can take one; its
/// name is read only through `method_name_text`.
#[verifier::external_type_specification]
#[verifier::external_body]
pub struct ExMethod(http::Method);

/// Declares http's `HeaderName` so that presign builders can take one; its
/// contents are read only through `header_name_text`.
#[verifier::external_type_specification]
#[verifier::external_body]
pub struct ExHeaderName(http::header::HeaderName);

/// Declares http's `HeaderValue` so that presign builders can take one; its
/// contents are read only through `header_value_bytes`.
#[verifier::external_type_specification]
#[verifier::external_body]
pub struct ExHeaderValue(http::header::HeaderValue);

/// The name of an HTTP method, as `Method::as_str` gives it.
pub uninterp spec fn method_name_of(method: http::Method) -> Seq<char>;

/// The whole seconds of a duration, as `Duration::as_secs` gives them.
pub uninterp spec fn duration_secs_of(d: Duration) -> u64;

/// The nanoseconds past the whole seconds of a duration, as
/// `Duration::subsec_nanos` gives them.
pub uninterp spec fn duration_nanos_of(d: Duration) -> u32;

/// The text of a header name, as `HeaderName::as_str` gives it.
pub uninterp spec fn header_name_of(name: http::header::HeaderName) -> Seq<char>;

/// The bytes of a header value, as `HeaderValue::as_bytes` gives them.
pub uninterp spec fn header_bytes_of(value: http::header::HeaderValue) -> Seq<u8>;

/// Calls `Method::as_str` and copies the text, `method_name_of`.
#[verifier::external_body]
fn method_name_text(method: &http::Method) -> (s: String)
    ensures
        s@ == method_name_of(*method),
{
    method.as_str().to_string()
}

/// Calls `Duration::as_secs`: the duration's whole seconds, `duration_secs_of`.
#[verifier::external_body]
fn duration_whole_secs(d: &Duration) -> (s: u64)
    ensures
        s == duration_secs_of(*d),
{
    d.as_secs()
}

/// Calls `Duration::subsec_nanos`: the nanoseconds past the whole seconds,
/// `duration_nanos_of`, which std documents as always below one billion.
#[verifier::external_body]
fn duration_subsec_nanos(d: &Duration) -> (n: u32)
    ensures
        n == duration_nanos_of(*d),
        n < 1_000_000_000,
{
    d.subsec_nanos()
}

/// Calls `HeaderName::as_str` and copies the text, `header_name_of`; http
/// keeps every header name in lower case.
#[verifier::external_body]
fn header_name_text(name: &http::header::HeaderName) -> (s: String)
    ensures
        s@ == header_name_of(*name),
        lower(s@) == s@,
{
    name.as_str().to_string()
}

/// Calls `HeaderValue::as_bytes` and copies the bytes, `header_bytes_of`.
#[verifier::external_body]
fn header_value_bytes(value: &http::header::HeaderValue) -> (b: Vec<u8>)
    ensures
        b@ == header_bytes_of(*value),
{
    value.as_bytes().to_vec()
}

/// The default lifetime of a presigned request, in seconds (15 minutes).
pub const DEFAULT_PRESIGN_EXPIRES_SECS: u64 = 900;

/// The longest lifetime of a presigned request, in seconds (7 days).
pub const MAX_PRESIGN_EXPIRES_SECS: u64 = 604800;

/// A presign lifetime of `secs` seconds and `nanos` nanoseconds is at least
/// one second and at most seven days.
pub open spec fn presign_expires_ok(secs: u64, nanos: u32) -> bool {
    1 <= secs && (secs < MAX_PRESIGN_EXPIRES_SECS || (secs == MAX_PRESIGN_EXPIRES_SECS && nanos == 0))
}

/// Accepts a presign lifetime that `presign_expires_ok` allows.
pub fn validate_presign_expires(secs: u64, nanos: u32) -> (r: Result<(), Error>)
    ensures
        checked(r, presign_expires_ok(secs, nanos), "expires_in must be between 1 second and 7 days"@),
{
    if secs == 0 || secs > MAX_PRESIGN_EXPIRES_SECS || (secs == MAX_PRESIGN_EXPIRES_SECS && nanos != 0) {
        return Err(Error::invalid_config("expires_in must be between 1 second and 7 days"));
    }
    Ok(())
}

/// `s` begins with `prefix`, up to ASCII case.
pub open spec fn starts_with_ignore_case(s: Seq<char>, prefix: Seq<char>) -> bool {
    s.len() >= prefix.len() && eq_ignore_case(s.take(prefix.len() as int), prefix)
}

/// The message for a refused presign query parameter, if it is refused:
/// the name must be a header value and must not begin with `x-amz-`, and
/// the value must hold no control characters.
pub open spec fn presign_query_problem(name: Seq<char>, value: Seq<char>) -> Option<Seq<char>> {
    if !is_header_value(name) {
        Some("invalid presign query parameter"@)
    } else if starts_with_ignore_case(name, "x-amz-"@) {
        Some("presign query parameter is reserved"@)
    } else if !has_no_controls(value) {
        Some("invalid presign query parameter value"@)
    } else {
        None
    }
}

/// Accepts a presign query parameter, as `presign_query_problem` says.
pub fn validate_presign_query_param(name: &str, value: &str) -> (r: Result<(), Error>)
    ensures
        r is Ok <==> presign_query_problem(name@, value@) is None,
        r matches Err(e) ==> is_config_error(e, presign_query_problem(name@, value@)->Some_0),
{
    if name.unicode_len() == 0 || !check_header_text(name) {
        return Err(Error::invalid_config("invalid presign query parameter"));
    }
    let n = name.unicode_len();
    if n >= 6 {
        let head = name.substring_char(0, 6);
        if eq_ignore_case_exec(head, "x-amz-") {
            return Err(Error::invalid_config("presign query parameter is reserved"));
        }
    }
    proof {
        reveal_strlit("x-amz-");
    }
    if !check_no_controls(value) {
        return Err(Error::invalid_config("invalid presign query parameter value"));
    }
    Ok(())
}

/// A header that SigV4 signing sets itself.
pub open spec fn is_sigv4_managed(name: Seq<char>) -> bool {
    ||| eq_ignore_case(name, "host"@)
    ||| eq_ignore_case(name, "authorization"@)
    ||| eq_ignore_case(name, "x-amz-date"@)
    ||| eq_ignore_case(name, "x-amz-content-sha256"@)
    ||| eq_ignore_case(name, "x-amz-security-token"@)
}

/// A byte that a header value sent as text may hold: visible ASCII, space or tab.
pub open spec fn is_visible_byte(b: u8) -> bool {
    (32 <= b && b < 127) || b == 9
}

/// The message for a refused presign header, if it is refused: the name
/// must be a token that signing does not manage, the value visible ASCII.
pub open spec fn presign_header_problem(name: Seq<char>, value: Seq<u8>) -> Option<Seq<char>> {
    if !is_token(name) {
        Some("invalid presign header name"@)
    } else if is_sigv4_managed(name) {
        Some("presign header is SigV4-managed"@)
    } else if !(forall|i: int| 0 <= i < value.len() ==> is_visible_byte(#[trigger] value[i])) {
        Some("invalid presign header value"@)
    } else {
        None
    }
}

/// Accepts a presign header, as `presign_header_problem` says.
pub fn validate_presign_header(name: &str, value: &[u8]) -> (r: Result<(), Error>)
    ensures
        r is Ok <==> presign_header_problem(name@, value@) is None,
        r matches Err(e) ==> is_config_error(e, presign_header_problem(name@, value@)->Some_0),
{
    if !check_token(name) {
        return Err(Error::invalid_config("invalid presign header name"));
    }
    if eq_ignore_case_exec(name, "host") || eq_ignore_case_exec(name, "authorization")
        || eq_ignore_case_exec(name, "x-amz-date") || eq_ignore_case_exec(name, "x-amz-content-sha256")
        || eq_ignore_case_exec(name, "x-amz-security-token") {
        return Err(Error::invalid_config("presign header is SigV4-managed"));
    }
    let n = value.len();
    let mut i: usize = 0;
    while i < n
        invariant
            n == value@.len(),
            i <= n,
            forall|j: int| 0 <= j < i ==> is_visible_byte(#[trigger] value@[j]),
            is_token(name@),
            !is_sigv4_managed(name@),
        decreases n - i,
    {
        let b = value[i];
        if !((32 <= b && b < 127) || b == 9) {
            proof {
                assert(!is_visible_byte(value@[i as int]));
            }
            return Err(Error::invalid_config("invalid presign header value"));
        }
        i += 1;
    }
    Ok(())
}

/// Header names with byte values.
pub type BytePairs = Seq<(Seq<char>, Seq<u8>)>;

/// The views of a list of name/bytes pairs.
pub open spec fn byte_pairs(s: Seq<(String, Vec<u8>)>) -> BytePairs {
    Seq::new(s.len(), |i: int| (s[i].0@, s[i].1@))
}

/// `l` without the entries named `name`.
pub open spec fn without_name(l: BytePairs, name: Seq<char>) -> BytePairs
    decreases l.len(),
{
    if l.len() == 0 {
        Seq::empty()
    } else if l.last().0 == name {
        without_name(l.drop_last(), name)
    } else {
        without_name(l.drop_last(), name).push(l.last())
    }
}

/// Setting a header replaces every earlier value under its name.
pub open spec fn set_header(l: BytePairs, name: Seq<char>, value: Seq<u8>) -> BytePairs {
    without_name(l, name).push((name, value))
}

/// Text headers as byte headers (UTF-8).
pub open spec fn as_byte_pairs(p: Pairs) -> BytePairs {
    Seq::new(p.len(), |i: int| (p[i].0, vstd::utf8::encode_utf8(p[i].1)))
}

/// A presign request as plain values.
#[verifier::ext_equal]
pub struct PresignModel {
    pub method: Seq<char>,
    pub bucket: Seq<char>,
    pub key: Seq<char>,
    pub expires: (u64, u32),
    pub query: Pairs,
    pub headers: BytePairs,
    pub metadata: Pairs,
}

/// A fresh presign request for `method`, `bucket` and `key`, valid for 15 minutes.
pub open spec fn fresh_presign(method: Seq<char>, bucket: Seq<char>, key: Seq<char>) -> PresignModel {
    PresignModel {
        method,
        bucket,
        key,
        expires: (DEFAULT_PRESIGN_EXPIRES_SECS, 0),
        query: Seq::empty(),
        headers: Seq::empty(),
        metadata: Seq::empty(),
    }
}

/// What a presigned request is built from: method, addressing, lifetime in
/// seconds, query parameters and the headers to sign (the metadata headers last).
pub struct PresignPlan {
    pub method: String,
    pub bucket: String,
    pub key: String,
    pub expires_secs: u64,
    pub query: Vec<(String, String)>,
    pub headers: Vec<(String, Vec<u8>)>,
}

/// A presign plan as plain values.
#[verifier::ext_equal]
pub struct PresignPlanModel {
    pub method: Seq<char>,
    pub bucket: Seq<char>,
    pub key: Seq<char>,
    pub expires_secs: u64,
    pub query: Pairs,
    pub headers: BytePairs,
}

impl View for PresignPlan {
    type V = PresignPlanModel;

    open spec fn view(&self) -> PresignPlanModel {
        PresignPlanModel {
            method: self.method@,
            bucket: self.bucket@,
            key: self.key@,
            expires_secs: self.expires_secs,
            query: self.query.deep_view(),
            headers: byte_pairs(self.headers@),
        }
    }
}

/// The plan of a presign request.
pub open spec fn presign_plan(m: PresignModel) -> PresignPlanModel {
    PresignPlanModel {
        method: m.method,
        bucket: m.bucket,
        key: m.key,
        expires_secs: m.expires.0,
        query: m.query,
        headers: m.headers + as_byte_pairs(metadata_headers(m.metadata)),
    }
}

/// The state shared by the presign builders.
pub struct PresignCore {
    method: String,
    bucket: String,
    key: String,
    expires_secs: u64,
    expires_nanos: u32,
    query_params: Vec<(String, String)>,
    headers: Vec<(String, Vec<u8>)>,
    metadata: Metadata,
}

impl View for PresignCore {
    type V = PresignModel;

    closed spec fn view(&self) -> PresignModel {
        PresignModel {
            method: self.method@,
            bucket: self.bucket@,
            key: self.key@,
            expires: (self.expires_secs, self.expires_nanos),
            query: self.query_params.deep_view(),
            headers: byte_pairs(self.headers@),
            metadata: self.metadata@,
        }
    }
}

impl PresignCore {
    /// A fresh presign request.
    pub fn new(method: &str, bucket: &str, key: &str) -> (r: PresignCore)
        ensures
            r@ == fresh_presign(method@, bucket@, key@),
    {
        let r = PresignCore {
            method: String::from_str(method),
            bucket: String::from_str(bucket),
            key: String::from_str(key),
            expires_secs: DEFAULT_PRESIGN_EXPIRES_SECS,
            expires_nanos: 0,
            query_params: Vec::new(),
            headers: Vec::new(),
            metadata: Metadata::new(),
        };
        proof {
            assert(r@ =~= fresh_presign(method@, bucket@, key@));
        }
        r
    }

    /// Sets the lifetime, given as whole seconds and nanoseconds.
    pub fn set_expires(&mut self, secs: u64, nanos: u32) -> (r: Result<(), Error>)
        ensures
            checked(r, presign_expires_ok(secs, nanos), "expires_in must be between 1 second and 7 days"@),
            r is Ok ==> final(self)@ == (PresignModel { expires: (secs, nanos), ..old(self)@ }),
            r is Err ==> final(self)@ == old(self)@,
    {
        validate_presign_expires(secs, nanos)?;
        self.expires_secs = secs;
        self.expires_nanos = nanos;
        Ok(())
    }

    /// Adds a query parameter.
    pub fn add_query_param(&mut self, name: &str, value: &str) -> (r: Result<(), Error>)
        ensures
            r is Ok <==> presign_query_problem(name@, value@) is None,
            r matches Err(e) ==> is_config_error(e, presign_query_problem(name@, value@)->Some_0),
            r is Ok ==> final(self)@ == (PresignModel { query: old(self)@.query.push((name@, value@)), ..old(self)@ }),
            r is Err ==> final(self)@ == old(self)@,
    {
        validate_presign_query_param(name, value)?;
        push_pair(&mut self.query_params, name, String::from_str(value));
        Ok(())
    }

    /// Sets a header to sign, replacing earlier values under its name,
    /// which is kept in lower case.
    pub fn set_header(&mut self, name: &str, value: &[u8]) -> (r: Result<(), Error>)
        ensures
            r is Ok <==> presign_header_problem(name@, value@) is None,
            r matches Err(e) ==> is_config_error(e, presign_header_problem(name@, value@)->Some_0),
            r is Ok ==> final(self)@ == (PresignModel {
                headers: set_header(old(self)@.headers, lower(name@), value@),
                ..old(self)@
            }),
            r is Err ==> final(self)@ == old(self)@,
    {
        validate_presign_header(name, value)?;
        let mut lowered = String::new();
        push_lower(&mut lowered, name);
        let ghost target = lowered@;
        proof {
            assert(lowered@ =~= lower(name@));
        }
        let n = self.headers.len();
        let mut kept: Vec<(String, Vec<u8>)> = Vec::new();
        let mut i: usize = 0;
        while i < n
            invariant
                n == self.headers@.len(),
                i <= n,
                lowered@ == target,
                byte_pairs(kept@) == without_name(byte_pairs(self.headers@).take(i as int), target),
                self@ == old(self)@,
            decreases n - i,
        {
            let ghost prefix = byte_pairs(self.headers@).take(i + 1);
            proof {
                assert(prefix.drop_last() =~= byte_pairs(self.headers@).take(i as int));
                assert(prefix.last() == (self.headers@[i as int].0@, self.headers@[i as int].1@));
            }
            let same = self.headers[i].0 == lowered;
            if !same {
                let ghost before = kept@;
                let entry = (self.headers[i].0.clone(), vstd::slice::slice_to_vec(self.headers[i].1.as_slice()));
                kept.push(entry);
                proof {
                    assert(byte_pairs(kept@) =~= byte_pairs(before).push(prefix.last()));
                }
            }
            i += 1;
        }
        proof {
            assert(byte_pairs(self.headers@).take(n as int) =~= byte_pairs(self.headers@));
        }
        let ghost before = kept@;
        kept.push((lowered, vstd::slice::slice_to_vec(value)));
        proof {
            assert(byte_pairs(kept@) =~= byte_pairs(before).push((target, value@)));
        }
        self.headers = kept;
        proof {
            assert(self@ =~= (PresignModel {
                headers: set_header(old(self)@.headers, lower(name@), value@),
                ..old(self)@
            }));
        }
        Ok(())
    }

    /// Adds a user metadata entry to sign.
    pub fn add_metadata(&mut self, key: &str, value: &str) -> (r: Result<(), Error>)
        ensures
            r is Ok <==> metadata_accepts(old(self)@.metadata, key@, value@),
            r matches Err(e) ==> is_config_error(e, metadata_error(key@, value@)),
            r is Ok ==> final(self)@ == (PresignModel { metadata: old(self)@.metadata.push((key@, value@)), ..old(self)@ }),
            r is Err ==> final(self)@ == old(self)@,
    {
        self.metadata.push(key, value)
    }

    /// The plan of the presigned request.
    pub fn build(self) -> (r: PresignPlan)
        ensures
            r@ == presign_plan(self@),
    {
        let ghost m = self@;
        let mut text_headers: Vec<(String, String)> = Vec::new();
        proof {
            assert(text_headers.deep_view() =~= Seq::<(Seq<char>, Seq<char>)>::empty());
        }
        self.metadata.push_headers(&mut text_headers);
        let mut headers = self.headers;
        let n = text_headers.len();
        let mut i: usize = 0;
        let ghost base = byte_pairs(headers@);
        proof {
            assert(text_headers.deep_view() =~= metadata_headers(m.metadata));
        }
        while i < n
            invariant
                n == text_headers@.len(),
                i <= n,
                text_headers.deep_view() == metadata_headers(m.metadata),
                byte_pairs(headers@) == base + as_byte_pairs(metadata_headers(m.metadata)).take(i as int),
            decreases n - i,
        {
            let name = text_headers[i].0.clone();
            let bytes = vstd::slice::slice_to_vec(text_headers[i].1.as_str().as_bytes());
            let ghost before = headers@;
            headers.push((name, bytes));
            proof {
                assert(text_headers.deep_view()[i as int] == (text_headers@[i as int].0@, text_headers@[i as int].1@));
                assert(as_byte_pairs(metadata_headers(m.metadata)).take(i + 1) =~= as_byte_pairs(
                    metadata_headers(m.metadata),
                ).take(i as int).push(as_byte_pairs(metadata_headers(m.metadata))[i as int]));
                assert(byte_pairs(headers@) =~= byte_pairs(before).push(as_byte_pairs(metadata_headers(m.metadata))[i as int]));
            }
            i += 1;
        }
        proof {
            assert(as_byte_pairs(metadata_headers(m.metadata)).take(n as int) =~= as_byte_pairs(metadata_headers(m.metadata)));
        }
        let r = PresignPlan {
            method: self.method,
            bucket: self.bucket,
            key: self.key,
            expires_secs: self.expires_secs,
            query: self.query_params,
            headers,
        };
        proof {
            assert(r@ =~= presign_plan(m));
        }
        r
    }
}

impl ObjectsService {
    /// Starts a builder for a presigned request with a chosen method, valid for 15 minutes.
    pub fn presign(&self, method: http::Method, bucket: &str, key: &str) -> (r: PresignObjectRequest)
        ensures
            r@ == fresh_presign(method_name_of(method), bucket@, key@),
    {
        let name = method_name_text(&method);
        PresignObjectRequest { core: PresignCore::new(name.as_str(), bucket, key) }
    }

    /// Starts a builder for a presigned GET, valid for 15 minutes.
    pub fn presign_get(&self, bucket: &str, key: &str) -> (r: PresignGetObjectRequest)
        ensures
            r@ == fresh_presign("GET"@, bucket@, key@),
    {
        PresignGetObjectRequest { core: PresignCore::new("GET", bucket, key) }
    }

    /// Starts a builder for a presigned PUT, valid for 15 minutes.
    pub fn presign_put(&self, bucket: &str, key: &str) -> (r: PresignPutObjectRequest)
        ensures
            r@ == fresh_presign("PUT"@, bucket@, key@),
    {
        PresignPutObjectRequest { core: PresignCore::new("PUT", bucket, key) }
    }

    /// Starts a builder for a presigned HEAD, valid for 15 minutes.
    pub fn presign_head(&self, bucket: &str, key: &str) -> (r: PresignHeadObjectRequest)
        ensures
            r@ == fresh_presign("HEAD"@, bucket@, key@),
    {
        PresignHeadObjectRequest { core: PresignCore::new("HEAD", bucket, key) }
    }

    /// Starts a builder for a presigned DELETE, valid for 15 minutes.
    pub fn presign_delete(&self, bucket: &str, key: &str) -> (r: PresignDeleteObjectRequest)
        ensures
            r@ == fresh_presign("DELETE"@, bucket@, key@),
    {
        PresignDeleteObjectRequest { core: PresignCore::new("DELETE", bucket, key) }
    }
}

/// Request builder for a presigned request with a chosen method.
pub struct PresignObjectRequest {
    core: PresignCore,
}

impl View for PresignObjectRequest {
    type V = PresignModel;

    closed spec fn view(&self) -> PresignModel {
        self.core@
    }
}

impl PresignObjectRequest {
    /// Sets the lifetime. The duration's whole seconds and nanoseconds are
    /// checked as `presign_expires_ok` says.
    pub fn expires_in(self, duration: Duration) -> (r: Result<Self, Error>)
        ensures
            r is Ok <==> presign_expires_ok(duration_secs_of(duration), duration_nanos_of(duration)),
            r matches Ok(q) ==> q@ == (PresignModel {
                expires: (duration_secs_of(duration), duration_nanos_of(duration)),
                ..self@
            }),
            r matches Err(e) ==> is_config_error(e, "expires_in must be between 1 second and 7 days"@),
    {
        let secs = duration_whole_secs(&duration);
        let nanos = duration_subsec_nanos(&duration);
        self.expires_in_parts(secs, nanos)
    }

    /// Sets the lifetime, given as whole seconds and nanoseconds.
    pub fn expires_in_parts(self, secs: u64, nanos: u32) -> (r: Result<Self, Error>)
        ensures
            r is Ok <==> presign_expires_ok(secs, nanos),
            r matches Ok(q) ==> q@ == (PresignModel { expires: (secs, nanos), ..self@ }),
            r matches Err(e) ==> is_config_error(e, "expires_in must be between 1 second and 7 days"@),
    {
        let mut q = self;
        q.core.set_expires(secs, nanos)?;
        Ok(q)
    }

    /// Adds a query parameter to the presigned URL.
    pub fn query_param(self, name: &str, value: &str) -> (r: Result<Self, Error>)
        ensures
            r is Ok <==> presign_query_problem(name@, value@) is None,
            r matches Ok(q) ==> q@ == (PresignModel { query: self@.query.push((name@, value@)), ..self@ }),
            r matches Err(e) ==> is_config_error(e, presign_query_problem(name@, value@)->Some_0),
    {
        let mut q = self;
        q.core.add_query_param(name, value)?;
        Ok(q)
    }

    /// Adds an HTTP header to sign. The header's name and bytes are checked
    /// as `presign_header_problem` says.
    pub fn header(self, name: http::header::HeaderName, value: http::header::HeaderValue) -> (r: Result<Self, Error>)
        ensures
            r is Ok <==> presign_header_problem(header_name_of(name), header_bytes_of(value)) is None,
            r matches Ok(q) ==> q@ == (PresignModel {
                headers: set_header(self@.headers, header_name_of(name), header_bytes_of(value)),
                ..self@
            }),
            r matches Err(e) ==> is_config_error(
                e,
                presign_header_problem(header_name_of(name), header_bytes_of(value))->Some_0,
            ),
    {
        let n = header_name_text(&name);
        let v = header_value_bytes(&value);
        self.header_parts(n.as_str(), v.as_slice())
    }

    /// Adds an HTTP header to sign, given by name and bytes.
    pub fn header_parts(self, name: &str, value: &[u8]) -> (r: Result<Self, Error>)
        ensures
            r is Ok <==> presign_header_problem(name@, value@) is None,
            r matches Ok(q) ==> q@ == (PresignModel {
                headers: set_header(self@.headers, lower(name@), value@),
                ..self@
            }),
            r matches Err(e) ==> is_config_error(e, presign_header_problem(name@, value@)->Some_0),
    {
        let mut q = self;
        q.core.set_header(name, value)?;
        Ok(q)
    }

    /// Adds a user metadata entry to sign.
    pub fn metadata(self, key: &str, value: &str) -> (r: Result<Self, Error>)
        ensures
            r is Ok <==> metadata_accepts(self@.metadata, key@, value@),
            r matches Ok(q) ==> q@ == (PresignModel { metadata: self@.metadata.push((key@, value@)), ..self@ }),
            r matches Err(e) ==> is_config_error(e, metadata_error(key@, value@)),
    {
        let mut q = self;
        q.core.add_metadata(key, value)?;
        Ok(q)
    }

    /// The plan of the presigned request; signing it is the caller's part.
    pub fn build(self) -> (r: PresignPlan)
        ensures
            r@ == presign_plan(self@),
    {
        self.core.build()
    }
}

/// Request builder for a presigned GET.
pub struct PresignGetObjectRequest {
    core: PresignCore,
}

impl View for PresignGetObjectRequest {
    type V = PresignModel;

    closed spec fn view(&self) -> PresignModel {
        self.core@
    }
}

impl PresignGetObjectRequest {
    /// Sets the lifetime. The duration's whole seconds and nanoseconds are
    /// checked as `presign_expires_ok` says.
    pub fn expires_in(self, duration: Duration) -> (r: Result<Self, Error>)
        ensures
            r is Ok <==> presign_expires_ok(duration_secs_of(duration), duration_nanos_of(duration)),
            r matches Ok(q) ==> q@ == (PresignModel {
                expires: (duration_secs_of(duration), duration_nanos_of(duration)),
                ..self@
            }),
            r matches Err(e) ==> is_config_error(e, "expires_in must be between 1 second and 7 days"@),
    {
        let secs = duration_whole_secs(&duration);
        let nanos = duration_subsec_nanos(&duration);
        self.expires_in_parts(secs, nanos)
    }

    /// Sets the lifetime, given as whole seconds and nanoseconds.
    pub fn expires_in_parts(self, secs: u64, nanos: u32) -> (r: Result<Self, Error>)
        ensures
            r is Ok <==> presign_expires_ok(secs, nanos),
            r matches Ok(q) ==> q@ == (PresignModel { expires: (secs, nanos), ..self@ }),
            r matches Err(e) ==> is_config_error(e, "expires_in must be between 1 second and 7 days"@),
    {
        let mut q = self;
        q.core.set_expires(secs, nanos)?;
        Ok(q)
    }

    /// Adds a query parameter to the presigned URL.
    pub fn query_param(self, name: &str, value: &str) -> (r: Result<Self, Error>)
        ensures
            r is Ok <==> presign_query_problem(name@, value@) is None,
            r matches Ok(q) ==> q@ == (PresignModel { query: self@.query.push((name@, value@)), ..self@ }),
            r matches Err(e) ==> is_config_error(e, presign_query_problem(name@, value@)->Some_0),
    {
        let mut q = self;
        q.core.add_query_param(name, value)?;
        Ok(q)
    }

    /// Adds an HTTP header to sign. The header's name and bytes are checked
    /// as `presign_header_problem` says.
    pub fn header(self, name: http::header::HeaderName, value: http::header::HeaderValue) -> (r: Result<Self, Error>)
        ensures
            r is Ok <==> presign_header_problem(header_name_of(name), header_bytes_of(value)) is None,
            r matches Ok(q) ==> q@ == (PresignModel {
                headers: set_header(self@.headers, header_name_of(name), header_bytes_of(value)),
                ..self@
            }),
            r matches Err(e) ==> is_config_error(
                e,
                presign_header_problem(header_name_of(name), header_bytes_of(value))->Some_0,
            ),
    {
        let n = header_name_text(&name);
        let v = header_value_bytes(&value);
        self.header_parts(n.as_str(), v.as_slice())
    }

    /// Adds an HTTP header to sign, given by name and bytes.
    pub fn header_parts(self, name: &str, value: &[u8]) -> (r: Result<Self, Error>)
        ensures
            r is Ok <==> presign_header_problem(name@, value@) is None,
            r matches Ok(q) ==> q@ == (PresignModel {
                headers: set_header(self@.headers, lower(name@), value@),
                ..self@
            }),
            r matches Err(e) ==> is_config_error(e, presign_header_problem(name@, value@)->Some_0),
    {
        let mut q = self;
        q.core.set_header(name, value)?;
        Ok(q)
    }

    /// Adds a user metadata entry to sign.
    pub fn metadata(self, key: &str, value: &str) -> (r: Result<Self, Error>)
        ensures
            r is Ok <==> metadata_accepts(self@.metadata, key@, value@),
            r matches Ok(q) ==> q@ == (PresignModel { metadata: self@.metadata.push((key@, value@)), ..self@ }),
            r matches Err(e) ==> is_config_error(e, metadata_error(key@, value@)),
    {
        let mut q = self;
        q.core.add_metadata(key, value)?;
        Ok(q)
    }

    /// The plan of the presigned request; signing it is the caller's part.
    pub fn build(self) -> (r: PresignPlan)
        ensures
            r@ == presign_plan(self@),
    {
        self.core.build()
    }
}

/// Request builder for a presigned PUT.
pub struct PresignPutObjectRequest {
    core: PresignCore,
}

impl View for PresignPutObjectRequest {
    type V = PresignModel;

    closed spec fn view(&self) -> PresignModel {
        self.core@
    }
}

impl PresignPutObjectRequest {
    /// Sets the lifetime. The duration's whole seconds and nanoseconds are
    /// checked as `presign_expires_ok` says.
    pub fn expires_in(self, duration: Duration) -> (r: Result<Self, Error>)
        ensures
            r is Ok <==> presign_expires_ok(duration_secs_of(duration), duration_nanos_of(duration)),
            r matches Ok(q) ==> q@ == (PresignModel {
                expires: (duration_secs_of(duration), duration_nanos_of(duration)),
                ..self@
            }),
            r matches Err(e) ==> is_config_error(e, "expires_in must be between 1 second and 7 days"@),
    {
        let secs = duration_whole_secs(&duration);
        let nanos = duration_subsec_nanos(&duration);
        self.expires_in_parts(secs, nanos)
    }

    /// Sets the lifetime, given as whole seconds and nanoseconds.
    pub fn expires_in_parts(self, secs: u64, nanos: u32) -> (r: Result<Self, Error>)
        ensures
            r is Ok <==> presign_expires_ok(secs, nanos),
            r matches Ok(q) ==> q@ == (PresignModel { expires: (secs, nanos), ..self@ }),
            r matches Err(e) ==> is_config_error(e, "expires_in must be between 1 second and 7 days"@),
    {
        let mut q = self;
        q.core.set_expires(secs, nanos)?;
        Ok(q)
    }

    /// Adds a query parameter to the presigned URL.
    pub fn query_param(self, name: &str, value: &str) -> (r: Result<Self, Error>)
        ensures
            r is Ok <==> presign_query_problem(name@, value@) is None,
            r matches Ok(q) ==> q@ == (PresignModel { query: self@.query.push((name@, value@)), ..self@ }),
            r matches Err(e) ==> is_config_error(e, presign_query_problem(name@, value@)->Some_0),
    {
        let mut q = self;
        q.core.add_query_param(name, value)?;
        Ok(q)
    }

    /// Adds an HTTP header to sign. The header's name and bytes are checked
    /// as `presign_header_problem` says.
    pub fn header(self, name: http::header::HeaderName, value: http::header::HeaderValue) -> (r: Result<Self, Error>)
        ensures
            r is Ok <==> presign_header_problem(header_name_of(name), header_bytes_of(value)) is None,
            r matches Ok(q) ==> q@ == (PresignModel {
                headers: set_header(self@.headers, header_name_of(name), header_bytes_of(value)),
                ..self@
            }),
            r matches Err(e) ==> is_config_error(
                e,
                presign_header_problem(header_name_of(name), header_bytes_of(value))->Some_0,
            ),
    {
        let n = header_name_text(&name);
        let v = header_value_bytes(&value);
        self.header_parts(n.as_str(), v.as_slice())
    }

    /// Adds an HTTP header to sign, given by name and bytes.
    pub fn header_parts(self, name: &str, value: &[u8]) -> (r: Result<Self, Error>)
        ensures
            r is Ok <==> presign_header_problem(name@, value@) is None,
            r matches Ok(q) ==> q@ == (PresignModel {
                headers: set_header(self@.headers, lower(name@), value@),
                ..self@
            }),
            r matches Err(e) ==> is_config_error(e, presign_header_problem(name@, value@)->Some_0),
    {
        let mut q = self;
        q.core.set_header(name, value)?;
        Ok(q)
    }

    /// Adds a user metadata entry to sign.
    pub fn metadata(self, key: &str, value: &str) -> (r: Result<Self, Error>)
        ensures
            r is Ok <==> metadata_accepts(self@.metadata, key@, value@),
            r matches Ok(q) ==> q@ == (PresignModel { metadata: self@.metadata.push((key@, value@)), ..self@ }),
            r matches Err(e) ==> is_config_error(e, metadata_error(key@, value@)),
    {
        let mut q = self;
        q.core.add_metadata(key, value)?;
        Ok(q)
    }

    /// The plan of the presigned request; signing it is the caller's part.
    pub fn build(self) -> (r: PresignPlan)
        ensures
            r@ == presign_plan(self@),
    {
        self.core.build()
    }
}

/// Request builder for a presigned HEAD.
pub struct PresignHeadObjectRequest {
    core: PresignCore,
}

impl View for PresignHeadObjectRequest {
    type V = PresignModel;

    closed spec fn view(&self) -> PresignModel {
        self.core@
    }
}

impl PresignHeadObjectRequest {
    /// Sets the lifetime. The duration's whole seconds and nanoseconds are
    /// checked as `presign_expires_ok` says.
    pub fn expires_in(self, duration: Duration) -> (r: Result<Self, Error>)
        ensures
            r is Ok <==> presign_expires_ok(duration_secs_of(duration), duration_nanos_of(duration)),
            r matches Ok(q) ==> q@ == (PresignModel {
                expires: (duration_secs_of(duration), duration_nanos_of(duration)),
                ..self@
            }),
            r matches Err(e) ==> is_config_error(e, "expires_in must be between 1 second and 7 days"@),
    {
        let secs = duration_whole_secs(&duration);
        let nanos = duration_subsec_nanos(&duration);
        self.expires_in_parts(secs, nanos)
    }

    /// Sets the lifetime, given as whole seconds and nanoseconds.
    pub fn expires_in_parts(self, secs: u64, nanos: u32) -> (r: Result<Self, Error>)
        ensures
            r is Ok <==> presign_expires_ok(secs, nanos),
            r matches Ok(q) ==> q@ == (PresignModel { expires: (secs, nanos), ..self@ }),
            r matches Err(e) ==> is_config_error(e, "expires_in must be between 1 second and 7 days"@),
    {
        let mut q = self;
        q.core.set_expires(secs, nanos)?;
        Ok(q)
    }

    /// Adds a query parameter to the presigned URL.
    pub fn query_param(self, name: &str, value: &str) -> (r: Result<Self, Error>)
        ensures
            r is Ok <==> presign_query_problem(name@, value@) is None,
            r matches Ok(q) ==> q@ == (PresignModel { query: self@.query.push((name@, value@)), ..self@ }),
            r matches Err(e) ==> is_config_error(e, presign_query_problem(name@, value@)->Some_0),
    {
        let mut q = self;
        q.core.add_query_param(name, value)?;
        Ok(q)
    }

    /// Adds an HTTP header to sign. The header's name and bytes are checked
    /// as `presign_header_problem` says.
    pub fn header(self, name: http::header::HeaderName, value: http::header::HeaderValue) -> (r: Result<Self, Error>)
        ensures
            r is Ok <==> presign_header_problem(header_name_of(name), header_bytes_of(value)) is None,
            r matches Ok(q) ==> q@ == (PresignModel {
                headers: set_header(self@.headers, header_name_of(name), header_bytes_of(value)),
                ..self@
            }),
            r matches Err(e) ==> is_config_error(
                e,
                presign_header_problem(header_name_of(name), header_bytes_of(value))->Some_0,
            ),
    {
        let n = header_name_text(&name);
        let v = header_value_bytes(&value);
        self.header_parts(n.as_str(), v.as_slice())
    }

    /// Adds an HTTP header to sign, given by name and bytes.
    pub fn header_parts(self, name: &str, value: &[u8]) -> (r: Result<Self, Error>)
        ensures
            r is Ok <==> presign_header_problem(name@, value@) is None,
            r matches Ok(q) ==> q@ == (PresignModel {
                headers: set_header(self@.headers, lower(name@), value@),
                ..self@
            }),
            r matches Err(e) ==> is_config_error(e, presign_header_problem(name@, value@)->Some_0),
    {
        let mut q = self;
        q.core.set_header(name, value)?;
        Ok(q)
    }

    /// The plan of the presigned request; signing it is the caller's part.
    pub fn build(self) -> (r: PresignPlan)
        ensures
            r@ == presign_plan(self@),
    {
        self.core.build()
    }
}

/// Request builder for a presigned DELETE.
pub struct PresignDeleteObjectRequest {
    core: PresignCore,
}

impl View for PresignDeleteObjectRequest {
    type V = PresignModel;

    closed spec fn view(&self) -> PresignModel {
        self.core@
    }
}

impl PresignDeleteObjectRequest {
    /// Sets the lifetime. The duration's whole seconds and nanoseconds are
    /// checked as `presign_expires_ok` says.
    pub fn expires_in(self, duration: Duration) -> (r: Result<Self, Error>)
        ensures
            r is Ok <==> presign_expires_ok(duration_secs_of(duration), duration_nanos_of(duration)),
            r matches Ok(q) ==> q@ == (PresignModel {
                expires: (duration_secs_of(duration), duration_nanos_of(duration)),
                ..self@
            }),
            r matches Err(e) ==> is_config_error(e, "expires_in must be between 1 second and 7 days"@),
    {
        let secs = duration_whole_secs(&duration);
        let nanos = duration_subsec_nanos(&duration);
        self.expires_in_parts(secs, nanos)
    }

    /// Sets the lifetime, given as whole seconds and nanoseconds.
    pub fn expires_in_parts(self, secs: u64, nanos: u32) -> (r: Result<Self, Error>)
        ensures
            r is Ok <==> presign_expires_ok(secs, nanos),
            r matches Ok(q) ==> q@ == (PresignModel { expires: (secs, nanos), ..self@ }),
            r matches Err(e) ==> is_config_error(e, "expires_in must be between 1 second and 7 days"@),
    {
        let mut q = self;
        q.core.set_expires(secs, nanos)?;
        Ok(q)
    }

    /// Adds a query parameter to the presigned URL.
    pub fn query_param(self, name: &str, value: &str) -> (r: Result<Self, Error>)
        ensures
            r is Ok <==> presign_query_problem(name@, value@) is None,
            r matches Ok(q) ==> q@ == (PresignModel { query: self@.query.push((name@, value@)), ..self@ }),
            r matches Err(e) ==> is_config_error(e, presign_query_problem(name@, value@)->Some_0),
    {
        let mut q = self;
        q.core.add_query_param(name, value)?;
        Ok(q)
    }

    /// Adds an HTTP header to sign. The header's name and bytes are checked
    /// as `presign_header_problem` says.
    pub fn header(self, name: http::header::HeaderName, value: http::header::HeaderValue) -> (r: Result<Self, Error>)
        ensures
            r is Ok <==> presign_header_problem(header_name_of(name), header_bytes_of(value)) is None,
            r matches Ok(q) ==> q@ == (PresignModel {
                headers: set_header(self@.headers, header_name_of(name), header_bytes_of(value)),
                ..self@
            }),
            r matches Err(e) ==> is_config_error(
                e,
                presign_header_problem(header_name_of(name), header_bytes_of(value))->Some_0,
            ),
    {
        let n = header_name_text(&name);
        let v = header_value_bytes(&value);
        self.header_parts(n.as_str(), v.as_slice())
    }

    /// Adds an HTTP header to sign, given by name and bytes.
    pub fn header_parts(self, name: &str, value: &[u8]) -> (r: Result<Self, Error>)
        ensures
            r is Ok <==> presign_header_problem(name@, value@) is None,
            r matches Ok(q) ==> q@ == (PresignModel {
                headers: set_header(self@.headers, lower(name@), value@),
                ..self@
            }),
            r matches Err(e) ==> is_config_error(e, presign_header_problem(name@, value@)->Some_0),
    {
        let mut q = self;
        q.core.set_header(name, value)?;
        Ok(q)
    }

    /// The plan of the presigned request; signing it is the caller's part.
    pub fn build(self) -> (r: PresignPlan)
        ensures
            r@ == presign_plan(self@),
    {
        self.core.build()
    }
}

/// A presign plan signs every header that was set, in order, and after them
/// one header per metadata entry, `x-amz-meta-` and the key in lower case
/// with the value's bytes, whether or not other headers were set; method,
/// addressing, lifetime and query pass through.
pub proof fn law_presign_plan_carries_metadata(m: PresignModel)
    ensures
        ({
            let p = presign_plan(m);
            &&& p.headers.len() == m.headers.len() + m.metadata.len()
            &&& p.headers.take(m.headers.len() as int) == m.headers
            &&& forall|i: int| 0 <= i < m.metadata.len() ==> p.headers[m.headers.len() + i] == (
                metadata_header_name(#[trigger] m.metadata[i].0),
                vstd::utf8::encode_utf8(m.metadata[i].1),
            )
            &&& p.method == m.method && p.bucket == m.bucket && p.key == m.key
            &&& p.expires_secs == m.expires.0 && p.query == m.query
        }),
{
    let p = presign_plan(m);
    let t = as_byte_pairs(metadata_headers(m.metadata));
    assert(p.headers.take(m.headers.len() as int) =~= m.headers);
    assert forall|i: int| 0 <= i < m.metadata.len() implies p.headers[m.headers.len() + i] == (
        metadata_header_name(#[trigger] m.metadata[i].0),
        vstd::utf8::encode_utf8(m.metadata[i].1),
    ) by {
        assert(p.headers[m.headers.len() + i] == t[i]);
    }
}

} // verus!
