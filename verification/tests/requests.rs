use s3_objects::text::parse_u64_text;
use s3_objects::content_md5::{content_md5, push_base64};
use s3_objects::batch::{prepare_completed_parts, CompletedPart, DeleteObjectIdentifier};
use s3_objects::common::{ByteRange, Checksum, ChecksumAlgorithm};
use s3_objects::copy::copy_source_header_value;
use s3_objects::error::Error;
use s3_objects::listing::next_list_v2_continuation_token;
use s3_objects::multipart::validate_upload_part_body;
use s3_objects::objects::{delete_status_ok, ObjectsService};
use s3_objects::request::{status_is_success, AsyncBody, HttpMethod, PreparedRequest};
use s3_objects::validate::{
    validate_header_value, validate_metadata_key, validate_metadata_value, validate_object_key,
    validate_part_number_marker, validate_query_token, validate_query_value, validate_version_id,
};

fn service() -> ObjectsService {
    ObjectsService::new()
}

fn message<T>(result: Result<T, Error>) -> String {
    match result {
        Err(Error::InvalidConfig { message }) => message,
        Err(other) => panic!("expected InvalidConfig, got {other:?}"),
        Ok(_) => panic!("expected an error"),
    }
}

fn pairs(list: &[(String, String)]) -> Vec<(&str, &str)> {
    list.iter().map(|(n, v)| (n.as_str(), v.as_str())).collect()
}

fn body_text(r: &PreparedRequest) -> String {
    match &r.body {
        AsyncBody::Bytes(b) => String::from_utf8(b.clone()).unwrap(),
        _ => panic!("expected a body of bytes"),
    }
}

#[test]
fn get_prepares_range_and_conditions_in_order() {
    let r = service()
        .get("bucket", "logs/app.log")
        .range_bytes(0, 99)
        .unwrap()
        .if_match("\"e1\"")
        .unwrap()
        .if_none_match("\"e2\"")
        .unwrap()
        .if_modified_since("Wed, 21 Oct 2015 07:28:00 GMT")
        .unwrap()
        .if_unmodified_since("Thu, 22 Oct 2015 07:28:00 GMT")
        .unwrap()
        .prepare();
    assert_eq!(r.method, HttpMethod::Get);
    assert_eq!(r.bucket, "bucket");
    assert_eq!(r.key.as_deref(), Some("logs/app.log"));
    assert!(r.query.is_empty());
    assert_eq!(
        pairs(&r.headers),
        vec![
            ("range", "bytes=0-99"),
            ("if-match", "\"e1\""),
            ("if-none-match", "\"e2\""),
            ("if-modified-since", "Wed, 21 Oct 2015 07:28:00 GMT"),
            ("if-unmodified-since", "Thu, 22 Oct 2015 07:28:00 GMT"),
        ]
    );
}

#[test]
fn byte_range_rejects_start_after_end() {
    assert_eq!(
        message(service().get("b", "k").range_bytes(5, 4)),
        "invalid byte range: start must not exceed end"
    );
    assert!(ByteRange::new(7, 7).is_ok());
    assert_eq!(ByteRange::new(10, 18446744073709551615).unwrap().header_value(), "bytes=10-18446744073709551615");
}

#[test]
fn head_and_delete_prepare_plain_requests() {
    let h = service().head("b", "k").prepare();
    assert_eq!(h.method, HttpMethod::Head);
    assert!(h.headers.is_empty());
    let d = service().delete("b", "k").prepare();
    assert_eq!(d.method, HttpMethod::Delete);
    assert_eq!(d.key.as_deref(), Some("k"));
    assert!(delete_status_ok(204));
    assert!(delete_status_ok(200));
    assert!(!delete_status_ok(404));
    assert!(status_is_success(299));
    assert!(!status_is_success(300));
}

#[test]
fn put_prepares_headers_metadata_and_checksum() {
    let r = service()
        .put("bucket", "notes/hello.txt")
        .content_type("text/plain; charset=utf-8")
        .unwrap()
        .cache_control("no-cache")
        .unwrap()
        .content_disposition("inline")
        .unwrap()
        .content_encoding("gzip")
        .unwrap()
        .content_language("en")
        .unwrap()
        .expires("Wed, 21 Oct 2015 07:28:00 GMT")
        .unwrap()
        .metadata("Trace-Id", "abc")
        .unwrap()
        .checksum(Checksum::new(ChecksumAlgorithm::Crc32, "AAAAAA==").unwrap())
        .body_bytes(b"hello".to_vec())
        .prepare()
        .unwrap();
    assert_eq!(r.method, HttpMethod::Put);
    assert_eq!(
        pairs(&r.headers),
        vec![
            ("content-type", "text/plain; charset=utf-8"),
            ("cache-control", "no-cache"),
            ("content-disposition", "inline"),
            ("content-encoding", "gzip"),
            ("content-language", "en"),
            ("expires", "Wed, 21 Oct 2015 07:28:00 GMT"),
            ("x-amz-meta-trace-id", "abc"),
            ("x-amz-checksum-crc32", "AAAAAA=="),
        ]
    );
    match r.body {
        AsyncBody::Bytes(b) => assert_eq!(b, b"hello".to_vec()),
        _ => panic!("expected bytes"),
    }
}

#[test]
fn put_bodies_and_lengths() {
    let empty = service().put("b", "k").prepare().unwrap();
    match empty.body {
        AsyncBody::Bytes(b) => assert!(b.is_empty()),
        _ => panic!("expected an empty body of bytes"),
    }
    assert!(service().put("b", "k").content_length(0).prepare().is_ok());
    assert_eq!(
        message(service().put("b", "k").content_length(1).prepare()),
        "put_object content_length does not match body length"
    );
    assert!(service().put("b", "k").content_length(3).body_bytes(b"abc".to_vec()).prepare().is_ok());
    assert_eq!(
        message(service().put("b", "k").body_stream().prepare()),
        "streaming put requires content_length"
    );
    let sized = service().put("b", "k").body_stream_sized(42).prepare().unwrap();
    match sized.body {
        AsyncBody::Stream { content_length } => assert_eq!(content_length, Some(42)),
        _ => panic!("expected a stream"),
    }
    assert_eq!(
        message(Checksum::new(ChecksumAlgorithm::Sha256, " x")),
        "invalid checksum value"
    );
}

#[test]
fn delete_objects_prepares_escaped_xml() {
    let r = service()
        .delete_objects("bucket")
        .object("a&b")
        .unwrap()
        .object_with_version("c<d>", "v'1\"")
        .unwrap()
        .quiet(true)
        .prepare()
        .unwrap();
    assert_eq!(r.method, HttpMethod::Post);
    assert_eq!(r.key, None);
    assert_eq!(pairs(&r.query), vec![("delete", "")]);
    assert_eq!(
        pairs(&r.headers),
        vec![("content-type", "application/xml"), ("content-md5", "zxIB0CvnVeYS0suxwNzHlA==")]
    );
    assert_eq!(
        body_text(&r),
        "<Delete><Quiet>true</Quiet><Object><Key>a&amp;b</Key></Object>\
<Object><Key>c&lt;d&gt;</Key><VersionId>v&apos;1&quot;</VersionId></Object></Delete>"
    );
}

#[test]
fn delete_objects_errors() {
    assert_eq!(
        message(service().delete_objects("b").prepare()),
        "delete_objects requires at least one object"
    );
    assert_eq!(message(service().delete_objects("b").object("")), "invalid object key");
    assert_eq!(
        message(service().delete_objects("b").object_with_version("k", " v")),
        "invalid version_id"
    );
    assert_eq!(message(DeleteObjectIdentifier::new("a/./b")), "invalid object key");
    let keys: Vec<String> = (0..1000).map(|i| format!("k{i}")).collect();
    let full = service().delete_objects("b").objects(&keys).unwrap();
    assert_eq!(
        message(full.object("one-more")),
        "delete_objects accepts at most 1000 objects"
    );
}

#[test]
fn copy_prepares_encoded_source_and_metadata() {
    let r = service()
        .copy("src-bucket", "dir/a b+é.txt", "dst", "copy.txt")
        .source_version_id("v1/2")
        .unwrap()
        .replace_metadata()
        .content_type("text/plain")
        .unwrap()
        .metadata("Owner", "me")
        .unwrap()
        .prepare()
        .unwrap();
    assert_eq!(r.method, HttpMethod::Put);
    assert_eq!(r.bucket, "dst");
    assert_eq!(r.key.as_deref(), Some("copy.txt"));
    assert_eq!(
        pairs(&r.headers),
        vec![
            ("x-amz-copy-source", "src-bucket/dir/a%20b%2B%C3%A9.txt?versionId=v1%2F2"),
            ("x-amz-metadata-directive", "REPLACE"),
            ("content-type", "text/plain"),
            ("x-amz-meta-owner", "me"),
        ]
    );
}

#[test]
fn copy_without_replace_refuses_metadata() {
    assert_eq!(
        message(service().copy("s", "k", "d", "k2").metadata("a", "b").unwrap().prepare()),
        "content_type and metadata require replace_metadata"
    );
    let plain = service().copy("s", "k", "d", "k2").prepare().unwrap();
    assert_eq!(pairs(&plain.headers), vec![("x-amz-copy-source", "s/k")]);
    assert_eq!(message(service().copy("s", "../x", "d", "k2").prepare()), "invalid object key");
    assert_eq!(copy_source_header_value("b", "k~_-.", None).unwrap(), "b/k~_-.");
}

#[test]
fn multipart_requests_prepare_queries() {
    let c = service()
        .create_multipart_upload("b", "k")
        .content_type("video/mp4")
        .unwrap()
        .metadata("x", "1")
        .unwrap()
        .prepare();
    assert_eq!(c.method, HttpMethod::Post);
    assert_eq!(pairs(&c.query), vec![("uploads", "")]);
    assert_eq!(pairs(&c.headers), vec![("content-type", "video/mp4"), ("x-amz-meta-x", "1")]);

    let u = service()
        .upload_part("b", "k", "up-1", 7)
        .body_bytes(vec![1, 2, 3])
        .prepare()
        .unwrap();
    assert_eq!(u.method, HttpMethod::Put);
    assert_eq!(pairs(&u.query), vec![("partNumber", "7"), ("uploadId", "up-1")]);

    let pc = service()
        .upload_part_copy("sb", "sk", "b", "k", "up-1", 10000)
        .copy_source_range_bytes(0, 1048575)
        .unwrap()
        .prepare()
        .unwrap();
    assert_eq!(pairs(&pc.query), vec![("partNumber", "10000"), ("uploadId", "up-1")]);
    assert_eq!(
        pairs(&pc.headers),
        vec![("x-amz-copy-source", "sb/sk"), ("x-amz-copy-source-range", "bytes=0-1048575")]
    );

    let a = service().abort_multipart_upload("b", "k", "up-1").prepare().unwrap();
    assert_eq!(a.method, HttpMethod::Delete);
    assert_eq!(pairs(&a.query), vec![("uploadId", "up-1")]);

    let l = service()
        .list_parts("b", "k", "up-1")
        .max_parts(250)
        .unwrap()
        .part_number_marker(12)
        .unwrap()
        .prepare()
        .unwrap();
    assert_eq!(
        pairs(&l.query),
        vec![("uploadId", "up-1"), ("max-parts", "250"), ("part-number-marker", "12")]
    );
}

#[test]
fn multipart_errors() {
    assert_eq!(
        message(service().upload_part("b", "k", "u", 1).prepare()),
        "upload_part requires a request body"
    );
    assert_eq!(
        message(validate_upload_part_body(&AsyncBody::Stream { content_length: None })),
        "streaming upload_part requires content_length"
    );
    assert!(validate_upload_part_body(&AsyncBody::Stream { content_length: Some(1) }).is_ok());
    assert_eq!(
        message(service().upload_part("b", "k", "u", 0).body_bytes(vec![1]).prepare()),
        "part_number must be between 1 and 10000"
    );
    assert_eq!(
        message(service().upload_part("b", "k", "", 1).body_bytes(vec![1]).prepare()),
        "invalid upload_id"
    );
    assert_eq!(
        message(service().upload_part_copy("sb", "sk", "b", "k", "u", 10001).prepare()),
        "part_number must be between 1 and 10000"
    );
    assert_eq!(
        message(service().upload_part_copy("sb", "sk", "b", "k", "u", 1).copy_source_range_bytes(2, 1)),
        "invalid byte range: start must not exceed end"
    );
    assert_eq!(message(service().abort_multipart_upload("b", "k", " u").prepare()), "invalid upload_id");
    assert_eq!(message(service().list_parts("b", "k", "").prepare()), "invalid upload_id");
    assert_eq!(message(validate_part_number_marker(10001)), "part_number_marker must be between 1 and 10000");
}

#[test]
fn complete_sorts_parts_by_number() {
    let r = service()
        .complete_multipart_upload("b", "k", "up-1")
        .part(3, "\"c\"")
        .unwrap()
        .parts(vec![CompletedPart::new(1, "\"a\"").unwrap(), CompletedPart::new(2, "\"b&\"").unwrap()])
        .unwrap()
        .prepare()
        .unwrap();
    assert_eq!(r.method, HttpMethod::Post);
    assert_eq!(pairs(&r.query), vec![("uploadId", "up-1")]);
    assert_eq!(pairs(&r.headers), vec![("content-type", "application/xml")]);
    assert_eq!(
        body_text(&r),
        "<CompleteMultipartUpload>\
<Part><PartNumber>1</PartNumber><ETag>&quot;a&quot;</ETag></Part>\
<Part><PartNumber>2</PartNumber><ETag>&quot;b&amp;&quot;</ETag></Part>\
<Part><PartNumber>3</PartNumber><ETag>&quot;c&quot;</ETag></Part>\
</CompleteMultipartUpload>"
    );
}

#[test]
fn complete_errors() {
    assert_eq!(
        message(service().complete_multipart_upload("b", "k", "u").prepare()),
        "complete_multipart_upload requires at least one part"
    );
    assert_eq!(
        message(service().complete_multipart_upload("b", "k", " ").part(1, "e").unwrap().prepare()),
        "invalid upload_id"
    );
    assert_eq!(message(CompletedPart::new(0, "e")), "part_number must be between 1 and 10000");
    assert_eq!(message(CompletedPart::new(1, "")), "invalid part etag");
    assert_eq!(
        message(prepare_completed_parts(vec![
            CompletedPart::new(2, "a").unwrap(),
            CompletedPart::new(2, "b").unwrap(),
        ])),
        "part numbers must be unique"
    );
    let sorted = prepare_completed_parts(vec![
        CompletedPart::new(9, "a").unwrap(),
        CompletedPart::new(4, "b").unwrap(),
        CompletedPart::new(6, "c").unwrap(),
    ])
    .unwrap();
    let numbers: Vec<u32> = sorted.iter().map(|p| p.part_number()).collect();
    assert_eq!(numbers, vec![4, 6, 9]);
    assert_eq!(sorted[0].etag(), "b");
}

#[test]
fn list_v2_prepares_query_in_order() {
    let r = service()
        .list_v2("bucket")
        .prefix("logs/")
        .unwrap()
        .delimiter("/")
        .unwrap()
        .continuation_token("tok")
        .unwrap()
        .start_after("logs/a")
        .unwrap()
        .max_keys(100)
        .unwrap()
        .prepare()
        .unwrap();
    assert_eq!(r.method, HttpMethod::Get);
    assert_eq!(r.key, None);
    assert_eq!(
        pairs(&r.query),
        vec![
            ("list-type", "2"),
            ("prefix", "logs/"),
            ("delimiter", "/"),
            ("continuation-token", "tok"),
            ("start-after", "logs/a"),
            ("max-keys", "100"),
        ]
    );
    let bare = service().list_v2("bucket").prepare().unwrap();
    assert_eq!(pairs(&bare.query), vec![("list-type", "2")]);
}

#[test]
fn pager_walks_pages_and_stops() {
    let mut pager = service()
        .list_v2("bucket")
        .start_after("k0")
        .unwrap()
        .max_keys(2)
        .unwrap()
        .pager();
    assert_eq!(pager.max_keys(), Some(2));

    let first = pager.next_request().unwrap().prepare().unwrap();
    assert_eq!(
        pairs(&first.query),
        vec![("list-type", "2"), ("start-after", "k0"), ("max-keys", "2")]
    );

    pager.record_page(Some("t1"), true).unwrap();
    let second = pager.next_request().unwrap().prepare().unwrap();
    assert_eq!(
        pairs(&second.query),
        vec![("list-type", "2"), ("continuation-token", "t1"), ("max-keys", "2")]
    );

    pager.record_page(None, false).unwrap();
    assert!(pager.next_request().is_none());
    pager.record_page(Some("t9"), true).unwrap();
    assert!(pager.next_request().is_none());
}

#[test]
fn pager_refuses_a_stalled_token_and_stops() {
    let mut pager = service().list_v2("bucket").pager();
    pager.record_page(Some("t1"), true).unwrap();
    assert_eq!(
        message(pager.record_page(Some("t1"), true)),
        "ListObjectsV2 continuation token did not advance"
    );
    assert!(pager.next_request().is_none());

    let mut pager = service().list_v2("bucket").pager();
    assert_eq!(
        message(pager.record_page(None, true)),
        "truncated ListObjectsV2 response is missing NextContinuationToken"
    );
    assert!(pager.next_request().is_none());
}

#[test]
fn next_token_cases() {
    assert_eq!(next_list_v2_continuation_token(Some("a"), Some("b"), false).unwrap(), None);
    assert_eq!(
        next_list_v2_continuation_token(Some("a"), Some("b"), true).unwrap(),
        Some("b".to_string())
    );
    assert_eq!(
        next_list_v2_continuation_token(None, Some("b"), true).unwrap(),
        Some("b".to_string())
    );
    assert!(next_list_v2_continuation_token(None, Some(""), true).is_err());
    assert!(next_list_v2_continuation_token(Some("b"), Some("b"), true).is_err());
}

#[test]
fn validators_and_their_messages() {
    assert_eq!(message(validate_header_value("a\u{1}", "bad")), "bad");
    assert_eq!(message(validate_header_value("caf\u{e9}", "bad")), "bad");
    assert!(validate_header_value("a\tb", "bad").is_ok());
    assert_eq!(message(validate_version_id("")), "invalid version_id");
    assert_eq!(message(validate_query_value("prefix", "a\u{7f}")), "invalid prefix");
    assert!(validate_query_value("prefix", "caf\u{e9}/").is_ok());
    assert_eq!(message(validate_query_token("continuation_token", "t ")), "invalid continuation_token");
    assert_eq!(message(validate_metadata_key("a:b")), "invalid metadata key");
    assert!(validate_metadata_key("A-b_c.1~").is_ok());
    assert_eq!(message(validate_metadata_value("x\u{0}")), "invalid metadata value");
    assert!(validate_metadata_value("").is_ok());
    assert!(validate_object_key("a/.b/..c").is_ok());
    assert_eq!(message(validate_object_key("a/..")), "invalid object key");
    assert_eq!(message(validate_object_key("./a")), "invalid object key");
    assert_eq!(message(validate_object_key("a\nb")), "invalid object key");
    assert!(validate_object_key(&"x".repeat(1024)).is_ok());
    assert_eq!(message(validate_object_key(&"x".repeat(1025))), "invalid object key");
    assert_eq!(message(validate_object_key(&"\u{e9}".repeat(513))), "invalid object key");
}

#[test]
fn metadata_keys_are_unique_ignoring_case() {
    assert_eq!(
        message(service().create_multipart_upload("b", "k").metadata("A", "1").unwrap().metadata("a", "2")),
        "metadata keys must be unique (case-insensitive)"
    );
    assert_eq!(
        message(service().put("b", "k").metadata("k", "v\u{1}")),
        "invalid metadata value"
    );
}

#[test]
fn base64_and_content_md5_match_known_values() {
    let cases: [(&[u8], &str); 7] = [
        (b"", ""),
        (b"f", "Zg=="),
        (b"fo", "Zm8="),
        (b"foo", "Zm9v"),
        (b"foob", "Zm9vYg=="),
        (b"fooba", "Zm9vYmE="),
        (b"foobar", "Zm9vYmFy"),
    ];
    for (input, expected) in cases {
        let mut out = String::new();
        push_base64(&mut out, input);
        assert_eq!(out, expected);
    }
    assert_eq!(content_md5(b""), "1B2M2Y8AsgTpgAmY7PhCfg==");
    assert_eq!(content_md5(b"hello world"), "XrY7u+Ae7tCTyyK7j1rNww==");
}

#[test]
fn content_length_text_is_read_as_std_reads_a_u64() {
    assert_eq!(parse_u64_text("0"), Some(0));
    assert_eq!(parse_u64_text("1024"), Some(1024));
    assert_eq!(parse_u64_text("+17"), Some(17));
    assert_eq!(parse_u64_text("007"), Some(7));
    assert_eq!(parse_u64_text("18446744073709551615"), Some(u64::MAX));
    assert_eq!(parse_u64_text("18446744073709551616"), None);
    assert_eq!(parse_u64_text("99999999999999999999x"), None);
    assert_eq!(parse_u64_text(""), None);
    assert_eq!(parse_u64_text("+"), None);
    assert_eq!(parse_u64_text("-1"), None);
    assert_eq!(parse_u64_text(" 1"), None);
    assert_eq!(parse_u64_text("12a"), None);
    for text in ["0", "42", "+9", "18446744073709551615", "18446744073709551616", "", "+", "1_0"] {
        assert_eq!(parse_u64_text(text), text.parse::<u64>().ok());
    }
}
