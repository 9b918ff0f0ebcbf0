use vstd::prelude::*;
use crate::common::opt_text;
use crate::error::{Error, is_decode_error};
use crate::response::{
    chars_of, doc_text, element_text_exec, element_text_in, elements_in, elements_in_exec, find_in,
    find_in_exec, flag_exec, flag_in, has_root, has_root_exec, int_ranges, lemma_find_in, number_exec,
    is_error_document, number_in, occurs_at, open_tag, root_start, tag_chars,
};

verus! {

/// What CopyObject answers.
pub struct CopyObjectOutput {
    pub etag: Option<String>,
    pub last_modified: Option<String>,
}

/// What UploadPartCopy answers.
pub struct UploadPartCopyOutput {
    pub etag: Option<String>,
    pub last_modified: Option<String>,
}

/// What CreateMultipartUpload answers.
pub struct CreateMultipartUploadOutput {
    pub bucket: Option<String>,
    pub key: Option<String>,
    pub upload_id: String,
}

/// What CompleteMultipartUpload answers.
pub struct CompleteMultipartUploadOutput {
    pub location: Option<String>,
    pub bucket: Option<String>,
    pub key: Option<String>,
    pub etag: Option<String>,
}

/// Reads a CopyObject answer: a `CopyObjectResult` document, with its
/// `ETag` and `LastModified` where present.
pub fn parse_copy_object(body: &str) -> (r: Result<CopyObjectOutput, Error>)
    ensures
        r is Ok <==> has_root(body@, "CopyObjectResult"@),
        r matches Ok(o) ==> opt_text(o.etag) == doc_text(body@, "ETag"@) && opt_text(o.last_modified)
            == doc_text(body@, "LastModified"@),
        r matches Err(e) ==> is_decode_error(e, "expected a CopyObjectResult document"@),
{
    let s = chars_of(body);
    if !has_root_exec(&s, "CopyObjectResult") {
        return Err(Error::decode("expected a CopyObjectResult document"));
    }
    let n = s.len();
    Ok(CopyObjectOutput {
        etag: element_text_exec(&s, "ETag", 0, n),
        last_modified: element_text_exec(&s, "LastModified", 0, n),
    })
}

/// Reads an UploadPartCopy answer: a `CopyPartResult` document, with its
/// `ETag` and `LastModified` where present.
pub fn parse_upload_part_copy(body: &str) -> (r: Result<UploadPartCopyOutput, Error>)
    ensures
        r is Ok <==> has_root(body@, "CopyPartResult"@),
        r matches Ok(o) ==> opt_text(o.etag) == doc_text(body@, "ETag"@) && opt_text(o.last_modified)
            == doc_text(body@, "LastModified"@),
        r matches Err(e) ==> is_decode_error(e, "expected a CopyPartResult document"@),
{
    let s = chars_of(body);
    if !has_root_exec(&s, "CopyPartResult") {
        return Err(Error::decode("expected a CopyPartResult document"));
    }
    let n = s.len();
    Ok(UploadPartCopyOutput {
        etag: element_text_exec(&s, "ETag", 0, n),
        last_modified: element_text_exec(&s, "LastModified", 0, n),
    })
}

/// Reads a CreateMultipartUpload answer: an `InitiateMultipartUploadResult`
/// document, which must name the `UploadId`.
pub fn parse_create_multipart_upload(body: &str) -> (r: Result<CreateMultipartUploadOutput, Error>)
    ensures
        r is Ok <==> has_root(body@, "InitiateMultipartUploadResult"@) && doc_text(body@, "UploadId"@) is Some,
        r matches Ok(o) ==> opt_text(o.bucket) == doc_text(body@, "Bucket"@) && opt_text(o.key) == doc_text(
            body@,
            "Key"@,
        ) && Some(o.upload_id@) == doc_text(body@, "UploadId"@),
        r matches Err(e) ==> if has_root(body@, "InitiateMultipartUploadResult"@) {
            is_decode_error(e, "CreateMultipartUpload response has no UploadId"@)
        } else {
            is_decode_error(e, "expected an InitiateMultipartUploadResult document"@)
        },
{
    let s = chars_of(body);
    if !has_root_exec(&s, "InitiateMultipartUploadResult") {
        return Err(Error::decode("expected an InitiateMultipartUploadResult document"));
    }
    let n = s.len();
    let upload_id = match element_text_exec(&s, "UploadId", 0, n) {
        Some(t) => t,
        None => {
            return Err(Error::decode("CreateMultipartUpload response has no UploadId"));
        },
    };
    Ok(CreateMultipartUploadOutput {
        bucket: element_text_exec(&s, "Bucket", 0, n),
        key: element_text_exec(&s, "Key", 0, n),
        upload_id,
    })
}

/// Reads a CompleteMultipartUpload answer: a
/// `CompleteMultipartUploadResult` document, with its `Location`, `Bucket`,
/// `Key` and `ETag` where present.
pub fn parse_complete_multipart_upload(body: &str) -> (r: Result<CompleteMultipartUploadOutput, Error>)
    ensures
        r is Ok <==> has_root(body@, "CompleteMultipartUploadResult"@),
        r matches Ok(o) ==> {
            &&& opt_text(o.location) == doc_text(body@, "Location"@)
            &&& opt_text(o.bucket) == doc_text(body@, "Bucket"@)
            &&& opt_text(o.key) == doc_text(body@, "Key"@)
            &&& opt_text(o.etag) == doc_text(body@, "ETag"@)
        },
        r matches Err(e) ==> is_decode_error(e, "expected a CompleteMultipartUploadResult document"@),
{
    let s = chars_of(body);
    if !has_root_exec(&s, "CompleteMultipartUploadResult") {
        return Err(Error::decode("expected a CompleteMultipartUploadResult document"));
    }
    let n = s.len();
    Ok(CompleteMultipartUploadOutput {
        location: element_text_exec(&s, "Location", 0, n),
        bucket: element_text_exec(&s, "Bucket", 0, n),
        key: element_text_exec(&s, "Key", 0, n),
        etag: element_text_exec(&s, "ETag", 0, n),
    })
}

/// One object of a listing.
pub struct ObjectSummary {
    pub key: String,
    pub etag: Option<String>,
    pub size: Option<u64>,
    pub last_modified: Option<String>,
    pub storage_class: Option<String>,
}

/// An object of a listing as plain values.
pub struct ObjectSummaryModel {
    pub key: Seq<char>,
    pub etag: Option<Seq<char>>,
    pub size: Option<u64>,
    pub last_modified: Option<Seq<char>>,
    pub storage_class: Option<Seq<char>>,
}

impl View for ObjectSummary {
    type V = ObjectSummaryModel;

    open spec fn view(&self) -> ObjectSummaryModel {
        ObjectSummaryModel {
            key: self.key@,
            etag: opt_text(self.etag),
            size: self.size,
            last_modified: opt_text(self.last_modified),
            storage_class: opt_text(self.storage_class),
        }
    }
}

/// A `Contents` element in `s[a..c]` can be read: it has a `Key`, and its
/// `Size`, where present, is a number.
pub open spec fn object_summary_ok(s: Seq<char>, a: int, c: int) -> bool {
    element_text_in(s, "Key"@, a, c) is Some && number_in(s, "Size"@, a, c) is Some
}

/// The object that a readable `Contents` element in `s[a..c]` describes.
pub open spec fn object_summary_at(s: Seq<char>, a: int, c: int) -> ObjectSummaryModel {
    ObjectSummaryModel {
        key: element_text_in(s, "Key"@, a, c)->Some_0,
        etag: element_text_in(s, "ETag"@, a, c),
        size: number_in(s, "Size"@, a, c)->Some_0,
        last_modified: element_text_in(s, "LastModified"@, a, c),
        storage_class: element_text_in(s, "StorageClass"@, a, c),
    }
}

/// Reads the `Contents` elements at `ranges`, or `None` where one cannot be read.
fn object_summaries(s: &Vec<char>, ranges: &Vec<(usize, usize)>) -> (r: Option<Vec<ObjectSummary>>)
    ensures
        r is Some <==> forall|i: int| 0 <= i < ranges@.len() ==> object_summary_ok(s@, #[trigger] ranges@[i].0 as int, ranges@[i].1 as int),
        r matches Some(v) ==> v@.len() == ranges@.len() && forall|i: int| 0 <= i < ranges@.len() ==> (#[trigger] v@[i])@
            == object_summary_at(s@, ranges@[i].0 as int, ranges@[i].1 as int),
{
    let mut out: Vec<ObjectSummary> = Vec::new();
    let mut i: usize = 0;
    while i < ranges.len()
        invariant
            i <= ranges@.len(),
            out@.len() == i,
            forall|j: int| 0 <= j < i ==> object_summary_ok(s@, #[trigger] ranges@[j].0 as int, ranges@[j].1 as int),
            forall|j: int| 0 <= j < i ==> (#[trigger] out@[j])@ == object_summary_at(s@, ranges@[j].0 as int, ranges@[j].1 as int),
        decreases ranges.len() - i,
    {
        let (a, c) = ranges[i];
        let key = match element_text_exec(s, "Key", a, c) {
            Some(k) => k,
            None => return None,
        };
        let size = match number_exec(s, "Size", a, c) {
            Some(v) => v,
            None => return None,
        };
        let item = ObjectSummary {
            key,
            etag: element_text_exec(s, "ETag", a, c),
            size,
            last_modified: element_text_exec(s, "LastModified", a, c),
            storage_class: element_text_exec(s, "StorageClass", a, c),
        };
        out.push(item);
        i += 1;
    }
    Some(out)
}

/// The texts of the `Prefix` elements in the `CommonPrefixes` elements at
/// `ranges`, or `None` where one has none.
fn prefixes_in(s: &Vec<char>, ranges: &Vec<(usize, usize)>) -> (r: Option<Vec<String>>)
    ensures
        r is Some <==> forall|i: int| 0 <= i < ranges@.len() ==> (element_text_in(s@, "Prefix"@, #[trigger] ranges@[i].0 as int, ranges@[i].1 as int) is Some),
        r matches Some(v) ==> v@.len() == ranges@.len() && forall|i: int| 0 <= i < ranges@.len() ==> Some((#[trigger] v@[i])@)
            == element_text_in(s@, "Prefix"@, ranges@[i].0 as int, ranges@[i].1 as int),
{
    let mut out: Vec<String> = Vec::new();
    let mut i: usize = 0;
    while i < ranges.len()
        invariant
            i <= ranges@.len(),
            out@.len() == i,
            forall|j: int| 0 <= j < i ==> (element_text_in(s@, "Prefix"@, #[trigger] ranges@[j].0 as int, ranges@[j].1 as int) is Some),
            forall|j: int| 0 <= j < i ==> Some((#[trigger] out@[j])@) == element_text_in(s@, "Prefix"@, ranges@[j].0 as int, ranges@[j].1 as int),
        decreases ranges.len() - i,
    {
        let (a, c) = ranges[i];
        match element_text_exec(s, "Prefix", a, c) {
            Some(p) => out.push(p),
            None => return None,
        }
        i += 1;
    }
    Some(out)
}

/// One page of a ListObjectsV2 listing.
pub struct ListObjectsV2Output {
    pub name: Option<String>,
    pub prefix: Option<String>,
    pub delimiter: Option<String>,
    pub start_after: Option<String>,
    pub continuation_token: Option<String>,
    pub next_continuation_token: Option<String>,
    pub key_count: Option<u64>,
    pub max_keys: Option<u64>,
    pub is_truncated: bool,
    pub contents: Vec<ObjectSummary>,
    pub common_prefixes: Vec<String>,
}

/// Where the elements of a listing end that are not inside a `CommonPrefixes`
/// element: at its first `CommonPrefixes` element, or at the end.
pub open spec fn before_common_prefixes(s: Seq<char>) -> int {
    match find_in(s, open_tag("CommonPrefixes"@), 0, s.len() as int) {
        Some(i) => i,
        None => s.len() as int,
    }
}

/// The `Contents` elements of a listing.
pub open spec fn contents_of(s: Seq<char>) -> Seq<(int, int)> {
    elements_in(s, "Contents"@, 0, s.len() as int)
}

/// The `CommonPrefixes` elements of a listing.
pub open spec fn common_prefixes_of(s: Seq<char>) -> Seq<(int, int)> {
    elements_in(s, "CommonPrefixes"@, 0, s.len() as int)
}

/// A ListObjectsV2 answer can be read: a `ListBucketResult` document whose
/// `KeyCount` and `MaxKeys`, where present, are numbers, whose objects can
/// be read and whose common prefixes each have a `Prefix`.
pub open spec fn list_v2_readable(s: Seq<char>) -> bool {
    &&& has_root(s, "ListBucketResult"@)
    &&& number_in(s, "KeyCount"@, 0, s.len() as int) is Some
    &&& number_in(s, "MaxKeys"@, 0, s.len() as int) is Some
    &&& forall|i: int| 0 <= i < contents_of(s).len() ==> object_summary_ok(s, #[trigger] contents_of(s)[i].0, contents_of(s)[i].1)
    &&& forall|i: int| 0 <= i < common_prefixes_of(s).len() ==> (element_text_in(s, "Prefix"@, #[trigger] common_prefixes_of(s)[i].0, common_prefixes_of(s)[i].1) is Some)
}

/// `o` is what a readable ListObjectsV2 answer `s` says: each field the
/// text of its element (the `Prefix` one before any `CommonPrefixes`),
/// `IsTruncated` set where its text is `true`, and one entry for each
/// `Contents` and each `CommonPrefixes` element, in order.
pub open spec fn list_v2_output_is(o: ListObjectsV2Output, s: Seq<char>) -> bool {
    &&& opt_text(o.name) == doc_text(s, "Name"@)
    &&& opt_text(o.prefix) == element_text_in(s, "Prefix"@, 0, before_common_prefixes(s))
    &&& opt_text(o.delimiter) == doc_text(s, "Delimiter"@)
    &&& opt_text(o.start_after) == doc_text(s, "StartAfter"@)
    &&& opt_text(o.continuation_token) == doc_text(s, "ContinuationToken"@)
    &&& opt_text(o.next_continuation_token) == doc_text(s, "NextContinuationToken"@)
    &&& Some(o.key_count) == number_in(s, "KeyCount"@, 0, s.len() as int)
    &&& Some(o.max_keys) == number_in(s, "MaxKeys"@, 0, s.len() as int)
    &&& o.is_truncated == flag_in(s, "IsTruncated"@, 0, s.len() as int)
    &&& o.contents@.len() == contents_of(s).len()
    &&& forall|i: int| 0 <= i < contents_of(s).len() ==> (#[trigger] o.contents@[i])@ == object_summary_at(s, contents_of(s)[i].0, contents_of(s)[i].1)
    &&& o.common_prefixes@.len() == common_prefixes_of(s).len()
    &&& forall|i: int| 0 <= i < common_prefixes_of(s).len() ==> Some((#[trigger] o.common_prefixes@[i])@) == element_text_in(s, "Prefix"@, common_prefixes_of(s)[i].0, common_prefixes_of(s)[i].1)
}

/// Reads a ListObjectsV2 answer, as `list_v2_output_is` says.
pub fn parse_list_objects_v2(body: &str) -> (r: Result<ListObjectsV2Output, Error>)
    ensures
        r is Ok <==> list_v2_readable(body@),
        r matches Ok(o) ==> list_v2_output_is(o, body@),
        r matches Err(e) ==> is_decode_error(e, "invalid ListObjectsV2 response"@),
{
    let s = chars_of(body);
    let n = s.len();
    if !has_root_exec(&s, "ListBucketResult") {
        return Err(Error::decode("invalid ListObjectsV2 response"));
    }
    let key_count = match number_exec(&s, "KeyCount", 0, n) {
        Some(v) => v,
        None => return Err(Error::decode("invalid ListObjectsV2 response")),
    };
    let max_keys = match number_exec(&s, "MaxKeys", 0, n) {
        Some(v) => v,
        None => return Err(Error::decode("invalid ListObjectsV2 response")),
    };
    let content_ranges = elements_in_exec(&s, "Contents", 0, n);
    let contents = match object_summaries(&s, &content_ranges) {
        Some(v) => v,
        None => {
            proof {
                assert(int_ranges(content_ranges@) == contents_of(s@));
                let k = choose|i: int| 0 <= i < content_ranges@.len() && !object_summary_ok(s@, #[trigger] content_ranges@[i].0 as int, content_ranges@[i].1 as int);
                assert(int_ranges(content_ranges@)[k] == (content_ranges@[k].0 as int, content_ranges@[k].1 as int));
            }
            return Err(Error::decode("invalid ListObjectsV2 response"));
        },
    };
    let prefix_ranges = elements_in_exec(&s, "CommonPrefixes", 0, n);
    let common_prefixes = match prefixes_in(&s, &prefix_ranges) {
        Some(v) => v,
        None => {
            proof {
                assert(int_ranges(prefix_ranges@) == common_prefixes_of(s@));
                let k = choose|i: int| 0 <= i < prefix_ranges@.len() && !(element_text_in(s@, "Prefix"@, #[trigger] prefix_ranges@[i].0 as int, prefix_ranges@[i].1 as int) is Some);
                assert(int_ranges(prefix_ranges@)[k] == (prefix_ranges@[k].0 as int, prefix_ranges@[k].1 as int));
            }
            return Err(Error::decode("invalid ListObjectsV2 response"));
        },
    };
    let open = tag_chars("<", "CommonPrefixes", '>');
    proof {
        reveal_strlit("<");
        assert(open@ =~= open_tag("CommonPrefixes"@));
        lemma_find_in(s@, open@, 0, n as int);
    }
    let end = match find_in_exec(&s, &open, 0, n) {
        Some(i) => i,
        None => n,
    };
    let o = ListObjectsV2Output {
        name: element_text_exec(&s, "Name", 0, n),
        prefix: element_text_exec(&s, "Prefix", 0, end),
        delimiter: element_text_exec(&s, "Delimiter", 0, n),
        start_after: element_text_exec(&s, "StartAfter", 0, n),
        continuation_token: element_text_exec(&s, "ContinuationToken", 0, n),
        next_continuation_token: element_text_exec(&s, "NextContinuationToken", 0, n),
        key_count,
        max_keys,
        is_truncated: flag_exec(&s, "IsTruncated", 0, n),
        contents,
        common_prefixes,
    };
    proof {
        assert(int_ranges(content_ranges@) == contents_of(s@));
        assert(int_ranges(prefix_ranges@) == common_prefixes_of(s@));
        assert forall|i: int| 0 <= i < contents_of(s@).len() implies object_summary_ok(s@, #[trigger] contents_of(s@)[i].0, contents_of(s@)[i].1)
            && o.contents@[i]@ == object_summary_at(s@, contents_of(s@)[i].0, contents_of(s@)[i].1) by {
            assert(int_ranges(content_ranges@)[i] == (content_ranges@[i].0 as int, content_ranges@[i].1 as int));
        }
        assert forall|i: int| 0 <= i < common_prefixes_of(s@).len() implies (element_text_in(s@, "Prefix"@, #[trigger] common_prefixes_of(s@)[i].0, common_prefixes_of(s@)[i].1) is Some)
            && Some(o.common_prefixes@[i]@) == element_text_in(s@, "Prefix"@, common_prefixes_of(s@)[i].0, common_prefixes_of(s@)[i].1) by {
            assert(int_ranges(prefix_ranges@)[i] == (prefix_ranges@[i].0 as int, prefix_ranges@[i].1 as int));
        }
    }
    Ok(o)
}

/// One part of a multipart upload's listing.
pub struct PartSummary {
    pub part_number: u64,
    pub etag: Option<String>,
    pub size: Option<u64>,
    pub last_modified: Option<String>,
}

/// A part of a listing as plain values.
pub struct PartSummaryModel {
    pub part_number: u64,
    pub etag: Option<Seq<char>>,
    pub size: Option<u64>,
    pub last_modified: Option<Seq<char>>,
}

impl View for PartSummary {
    type V = PartSummaryModel;

    open spec fn view(&self) -> PartSummaryModel {
        PartSummaryModel {
            part_number: self.part_number,
            etag: opt_text(self.etag),
            size: self.size,
            last_modified: opt_text(self.last_modified),
        }
    }
}

/// A `Part` element in `s[a..c]` can be read: its `PartNumber` is a number,
/// and so is its `Size` where present.
pub open spec fn part_summary_ok(s: Seq<char>, a: int, c: int) -> bool {
    number_in(s, "PartNumber"@, a, c) matches Some(Some(_)) && number_in(s, "Size"@, a, c) is Some
}

/// The part that a readable `Part` element in `s[a..c]` describes.
pub open spec fn part_summary_at(s: Seq<char>, a: int, c: int) -> PartSummaryModel {
    PartSummaryModel {
        part_number: number_in(s, "PartNumber"@, a, c)->Some_0->Some_0,
        etag: element_text_in(s, "ETag"@, a, c),
        size: number_in(s, "Size"@, a, c)->Some_0,
        last_modified: element_text_in(s, "LastModified"@, a, c),
    }
}

/// Reads the `Part` elements at `ranges`, or `None` where one cannot be read.
fn part_summaries(s: &Vec<char>, ranges: &Vec<(usize, usize)>) -> (r: Option<Vec<PartSummary>>)
    ensures
        r is Some <==> forall|i: int| 0 <= i < ranges@.len() ==> part_summary_ok(s@, #[trigger] ranges@[i].0 as int, ranges@[i].1 as int),
        r matches Some(v) ==> v@.len() == ranges@.len() && forall|i: int| 0 <= i < ranges@.len() ==> (#[trigger] v@[i])@
            == part_summary_at(s@, ranges@[i].0 as int, ranges@[i].1 as int),
{
    let mut out: Vec<PartSummary> = Vec::new();
    let mut i: usize = 0;
    while i < ranges.len()
        invariant
            i <= ranges@.len(),
            out@.len() == i,
            forall|j: int| 0 <= j < i ==> part_summary_ok(s@, #[trigger] ranges@[j].0 as int, ranges@[j].1 as int),
            forall|j: int| 0 <= j < i ==> (#[trigger] out@[j])@ == part_summary_at(s@, ranges@[j].0 as int, ranges@[j].1 as int),
        decreases ranges.len() - i,
    {
        let (a, c) = ranges[i];
        let part_number = match number_exec(s, "PartNumber", a, c) {
            Some(Some(v)) => v,
            _ => return None,
        };
        let size = match number_exec(s, "Size", a, c) {
            Some(v) => v,
            None => return None,
        };
        let item = PartSummary {
            part_number,
            etag: element_text_exec(s, "ETag", a, c),
            size,
            last_modified: element_text_exec(s, "LastModified", a, c),
        };
        out.push(item);
        i += 1;
    }
    Some(out)
}

/// One page of the parts of a multipart upload.
pub struct ListPartsOutput {
    pub bucket: Option<String>,
    pub key: Option<String>,
    pub upload_id: Option<String>,
    pub part_number_marker: Option<u64>,
    pub next_part_number_marker: Option<u64>,
    pub max_parts: Option<u64>,
    pub is_truncated: bool,
    pub parts: Vec<PartSummary>,
}

/// The `Part` elements of a parts listing.
pub open spec fn parts_of(s: Seq<char>) -> Seq<(int, int)> {
    elements_in(s, "Part"@, 0, s.len() as int)
}

/// A ListParts answer can be read: a `ListPartsResult` document whose
/// markers and `MaxParts`, where present, are numbers, and whose parts can
/// be read.
pub open spec fn list_parts_readable(s: Seq<char>) -> bool {
    &&& has_root(s, "ListPartsResult"@)
    &&& number_in(s, "PartNumberMarker"@, 0, s.len() as int) is Some
    &&& number_in(s, "NextPartNumberMarker"@, 0, s.len() as int) is Some
    &&& number_in(s, "MaxParts"@, 0, s.len() as int) is Some
    &&& forall|i: int| 0 <= i < parts_of(s).len() ==> part_summary_ok(s, #[trigger] parts_of(s)[i].0, parts_of(s)[i].1)
}

/// `o` is what a readable ListParts answer `s` says.
pub open spec fn list_parts_output_is(o: ListPartsOutput, s: Seq<char>) -> bool {
    &&& opt_text(o.bucket) == doc_text(s, "Bucket"@)
    &&& opt_text(o.key) == doc_text(s, "Key"@)
    &&& opt_text(o.upload_id) == doc_text(s, "UploadId"@)
    &&& Some(o.part_number_marker) == number_in(s, "PartNumberMarker"@, 0, s.len() as int)
    &&& Some(o.next_part_number_marker) == number_in(s, "NextPartNumberMarker"@, 0, s.len() as int)
    &&& Some(o.max_parts) == number_in(s, "MaxParts"@, 0, s.len() as int)
    &&& o.is_truncated == flag_in(s, "IsTruncated"@, 0, s.len() as int)
    &&& o.parts@.len() == parts_of(s).len()
    &&& forall|i: int| 0 <= i < parts_of(s).len() ==> (#[trigger] o.parts@[i])@ == part_summary_at(s, parts_of(s)[i].0, parts_of(s)[i].1)
}

/// Reads a ListParts answer, as `list_parts_output_is` says.
pub fn parse_list_parts(body: &str) -> (r: Result<ListPartsOutput, Error>)
    ensures
        r is Ok <==> list_parts_readable(body@),
        r matches Ok(o) ==> list_parts_output_is(o, body@),
        r matches Err(e) ==> is_decode_error(e, "invalid ListParts response"@),
{
    let s = chars_of(body);
    let n = s.len();
    if !has_root_exec(&s, "ListPartsResult") {
        return Err(Error::decode("invalid ListParts response"));
    }
    let part_number_marker = match number_exec(&s, "PartNumberMarker", 0, n) {
        Some(v) => v,
        None => return Err(Error::decode("invalid ListParts response")),
    };
    let next_part_number_marker = match number_exec(&s, "NextPartNumberMarker", 0, n) {
        Some(v) => v,
        None => return Err(Error::decode("invalid ListParts response")),
    };
    let max_parts = match number_exec(&s, "MaxParts", 0, n) {
        Some(v) => v,
        None => return Err(Error::decode("invalid ListParts response")),
    };
    let ranges = elements_in_exec(&s, "Part", 0, n);
    let parts = match part_summaries(&s, &ranges) {
        Some(v) => v,
        None => {
            proof {
                assert(int_ranges(ranges@) == parts_of(s@));
                let k = choose|i: int| 0 <= i < ranges@.len() && !part_summary_ok(s@, #[trigger] ranges@[i].0 as int, ranges@[i].1 as int);
                assert(int_ranges(ranges@)[k] == (ranges@[k].0 as int, ranges@[k].1 as int));
            }
            return Err(Error::decode("invalid ListParts response"));
        },
    };
    let o = ListPartsOutput {
        bucket: element_text_exec(&s, "Bucket", 0, n),
        key: element_text_exec(&s, "Key", 0, n),
        upload_id: element_text_exec(&s, "UploadId", 0, n),
        part_number_marker,
        next_part_number_marker,
        max_parts,
        is_truncated: flag_exec(&s, "IsTruncated", 0, n),
        parts,
    };
    proof {
        assert(int_ranges(ranges@) == parts_of(s@));
        assert forall|i: int| 0 <= i < parts_of(s@).len() implies part_summary_ok(s@, #[trigger] parts_of(s@)[i].0, parts_of(s@)[i].1)
            && o.parts@[i]@ == part_summary_at(s@, parts_of(s@)[i].0, parts_of(s@)[i].1) by {
            assert(int_ranges(ranges@)[i] == (ranges@[i].0 as int, ranges@[i].1 as int));
        }
    }
    Ok(o)
}

/// An object that a batch delete removed.
pub struct DeletedObject {
    pub key: Option<String>,
    pub version_id: Option<String>,
    pub delete_marker: bool,
}

/// An object that a batch delete could not remove.
pub struct DeleteObjectError {
    pub key: Option<String>,
    pub version_id: Option<String>,
    pub code: Option<String>,
    pub message: Option<String>,
}

/// What a batch delete answers.
pub struct DeleteObjectsOutput {
    pub deleted: Vec<DeletedObject>,
    pub errors: Vec<DeleteObjectError>,
}

/// The `Deleted` elements of a batch delete's answer.
pub open spec fn deleted_of(s: Seq<char>) -> Seq<(int, int)> {
    elements_in(s, "Deleted"@, 0, s.len() as int)
}

/// The `Error` elements of a batch delete's answer.
pub open spec fn delete_errors_of(s: Seq<char>) -> Seq<(int, int)> {
    elements_in(s, "Error"@, 0, s.len() as int)
}

/// `d` is what the `Deleted` element in `s[a..c]` says.
pub open spec fn deleted_is(d: DeletedObject, s: Seq<char>, a: int, c: int) -> bool {
    &&& opt_text(d.key) == element_text_in(s, "Key"@, a, c)
    &&& opt_text(d.version_id) == element_text_in(s, "VersionId"@, a, c)
    &&& d.delete_marker == flag_in(s, "DeleteMarker"@, a, c)
}

/// `d` is what the `Error` element in `s[a..c]` says.
pub open spec fn delete_error_is(d: DeleteObjectError, s: Seq<char>, a: int, c: int) -> bool {
    &&& opt_text(d.key) == element_text_in(s, "Key"@, a, c)
    &&& opt_text(d.version_id) == element_text_in(s, "VersionId"@, a, c)
    &&& opt_text(d.code) == element_text_in(s, "Code"@, a, c)
    &&& opt_text(d.message) == element_text_in(s, "Message"@, a, c)
}

/// Reads a batch delete's answer: a `DeleteResult` document, with one entry
/// for each `Deleted` and each `Error` element, in order.
pub fn parse_delete_objects(body: &str) -> (r: Result<DeleteObjectsOutput, Error>)
    ensures
        r is Ok <==> has_root(body@, "DeleteResult"@),
        r matches Ok(o) ==> {
            &&& o.deleted@.len() == deleted_of(body@).len()
            &&& forall|i: int| 0 <= i < deleted_of(body@).len() ==> deleted_is(#[trigger] o.deleted@[i], body@, deleted_of(body@)[i].0, deleted_of(body@)[i].1)
            &&& o.errors@.len() == delete_errors_of(body@).len()
            &&& forall|i: int| 0 <= i < delete_errors_of(body@).len() ==> delete_error_is(#[trigger] o.errors@[i], body@, delete_errors_of(body@)[i].0, delete_errors_of(body@)[i].1)
        },
        r matches Err(e) ==> is_decode_error(e, "expected a DeleteResult document"@),
{
    let s = chars_of(body);
    let n = s.len();
    if !has_root_exec(&s, "DeleteResult") {
        return Err(Error::decode("expected a DeleteResult document"));
    }
    let deleted_ranges = elements_in_exec(&s, "Deleted", 0, n);
    let mut deleted: Vec<DeletedObject> = Vec::new();
    let mut i: usize = 0;
    while i < deleted_ranges.len()
        invariant
            i <= deleted_ranges@.len(),
            deleted@.len() == i,
            forall|j: int| 0 <= j < i ==> deleted_is(#[trigger] deleted@[j], s@, deleted_ranges@[j].0 as int, deleted_ranges@[j].1 as int),
        decreases deleted_ranges.len() - i,
    {
        let (a, c) = deleted_ranges[i];
        deleted.push(DeletedObject {
            key: element_text_exec(&s, "Key", a, c),
            version_id: element_text_exec(&s, "VersionId", a, c),
            delete_marker: flag_exec(&s, "DeleteMarker", a, c),
        });
        i += 1;
    }
    let error_ranges = elements_in_exec(&s, "Error", 0, n);
    let mut errors: Vec<DeleteObjectError> = Vec::new();
    let mut k: usize = 0;
    while k < error_ranges.len()
        invariant
            k <= error_ranges@.len(),
            errors@.len() == k,
            forall|j: int| 0 <= j < k ==> delete_error_is(#[trigger] errors@[j], s@, error_ranges@[j].0 as int, error_ranges@[j].1 as int),
        decreases error_ranges.len() - k,
    {
        let (a, c) = error_ranges[k];
        errors.push(DeleteObjectError {
            key: element_text_exec(&s, "Key", a, c),
            version_id: element_text_exec(&s, "VersionId", a, c),
            code: element_text_exec(&s, "Code", a, c),
            message: element_text_exec(&s, "Message", a, c),
        });
        k += 1;
    }
    let o = DeleteObjectsOutput { deleted, errors };
    proof {
        assert(int_ranges(deleted_ranges@) == deleted_of(s@));
        assert(int_ranges(error_ranges@) == delete_errors_of(s@));
        assert forall|j: int| 0 <= j < deleted_of(s@).len() implies deleted_is(#[trigger] o.deleted@[j], s@, deleted_of(s@)[j].0, deleted_of(s@)[j].1) by {
            assert(int_ranges(deleted_ranges@)[j] == (deleted_ranges@[j].0 as int, deleted_ranges@[j].1 as int));
        }
        assert forall|j: int| 0 <= j < delete_errors_of(s@).len() implies delete_error_is(#[trigger] o.errors@[j], s@, delete_errors_of(s@)[j].0, delete_errors_of(s@)[j].1) by {
            assert(int_ranges(error_ranges@)[j] == (error_ranges@[j].0 as int, error_ranges@[j].1 as int));
        }
    }
    Ok(o)
}

/// The character after `<` at the root of a document with root `name` is
/// the first character of the name.
proof fn lemma_root_first_char(s: Seq<char>, name: Seq<char>)
    requires
        has_root(s, name),
        name.len() > 0,
    ensures
        s[root_start(s) + 1] == name[0],
{
    let r = root_start(s);
    assert(occurs_at(s, seq!['<'] + name, r));
    assert(s.subrange(r, r + name.len() + 1)[1] == (seq!['<'] + name)[1]);
}

/// An S3 error document is never read as an operation's answer: every
/// reader above refuses it, so that reading a response reports it as a
/// service error.
pub proof fn law_error_document_is_no_answer(s: Seq<char>)
    requires
        is_error_document(s),
    ensures
        !has_root(s, "CopyObjectResult"@),
        !has_root(s, "CopyPartResult"@),
        !has_root(s, "InitiateMultipartUploadResult"@),
        !has_root(s, "CompleteMultipartUploadResult"@),
        !has_root(s, "ListBucketResult"@),
        !has_root(s, "ListPartsResult"@),
        !has_root(s, "DeleteResult"@),
{
    reveal_strlit("Error");
    reveal_strlit("CopyObjectResult");
    reveal_strlit("CopyPartResult");
    reveal_strlit("InitiateMultipartUploadResult");
    reveal_strlit("CompleteMultipartUploadResult");
    reveal_strlit("ListBucketResult");
    reveal_strlit("ListPartsResult");
    reveal_strlit("DeleteResult");
    lemma_root_first_char(s, "Error"@);
    if has_root(s, "CopyObjectResult"@) {
        lemma_root_first_char(s, "CopyObjectResult"@);
    }
    if has_root(s, "CopyPartResult"@) {
        lemma_root_first_char(s, "CopyPartResult"@);
    }
    if has_root(s, "InitiateMultipartUploadResult"@) {
        lemma_root_first_char(s, "InitiateMultipartUploadResult"@);
    }
    if has_root(s, "CompleteMultipartUploadResult"@) {
        lemma_root_first_char(s, "CompleteMultipartUploadResult"@);
    }
    if has_root(s, "ListBucketResult"@) {
        lemma_root_first_char(s, "ListBucketResult"@);
    }
    if has_root(s, "ListPartsResult"@) {
        lemma_root_first_char(s, "ListPartsResult"@);
    }
    if has_root(s, "DeleteResult"@) {
        lemma_root_first_char(s, "DeleteResult"@);
    }
}

} // verus!
