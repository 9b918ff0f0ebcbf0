use s3_objects::batch::CompletedPart;
use s3_objects::error::Error;
use s3_objects::multipart::validate_upload_part_body;
use s3_objects::objects::ObjectsService;
use s3_objects::request::AsyncBody;
use s3_objects::validate::{
    validate_max_keys, validate_max_parts, validate_upload_id, validate_upload_part_number,
};

fn test_objects() -> ObjectsService {
    ObjectsService::new()
}

fn assert_invalid_config<T>(result: Result<T, Error>, expected: &str) {
    match result {
        Err(Error::InvalidConfig { message }) => assert!(
            message.contains(expected),
            "expected {message:?} to contain {expected:?}"
        ),
        Err(other) => panic!("expected InvalidConfig, got {other:?}"),
        Ok(_) => panic!("expected InvalidConfig"),
    }
}

#[test]
fn list_v2_setters_reject_invalid_values() {
    let objects = test_objects();

    assert_invalid_config(objects.list_v2("bucket").prefix(""), "prefix");
    assert_invalid_config(objects.list_v2("bucket").delimiter(""), "delimiter");
    assert_invalid_config(
        objects.list_v2("bucket").continuation_token(" token"),
        "continuation_token",
    );
    assert_invalid_config(objects.list_v2("bucket").start_after("a/../b"), "object key");
    assert_invalid_config(objects.list_v2("bucket").max_keys(0), "max_keys");
}

#[test]
fn delete_objects_setters_reject_oversized_batches() {
    let objects = test_objects();
    let keys: Vec<String> = (0..=s3_objects::batch::MAX_DELETE_OBJECTS_PER_REQUEST)
        .map(|idx| format!("key-{idx}"))
        .collect();

    assert_invalid_config(objects.delete_objects("bucket").objects(&keys), "at most 1000");
}

#[test]
fn complete_multipart_setters_reject_duplicate_parts() {
    let objects = test_objects();

    assert_invalid_config(
        objects
            .complete_multipart_upload("bucket", "key", "upload-id")
            .part(1, "\"etag-1\"")
            .unwrap()
            .part(1, "\"etag-duplicate\""),
        "unique",
    );
    assert_invalid_config(
        objects.complete_multipart_upload("bucket", "key", "upload-id").parts(vec![
            CompletedPart::new(1, "\"etag-1\"").unwrap(),
            CompletedPart::new(1, "\"etag-duplicate\"").unwrap(),
        ]),
        "unique",
    );
}

#[test]
fn copy_source_version_id_setters_reject_invalid_values() {
    let objects = test_objects();

    assert_invalid_config(
        objects
            .copy("source-bucket", "source-key", "bucket", "key")
            .source_version_id(" version"),
        "version_id",
    );

    assert_invalid_config(
        objects
            .upload_part_copy("source-bucket", "source-key", "bucket", "key", "upload-id", 1)
            .source_version_id("version "),
        "version_id",
    );
}

#[test]
fn presign_setters_reject_invalid_values() {
    let objects = test_objects();

    assert_invalid_config(
        objects.presign_get("bucket", "key").expires_in(std::time::Duration::ZERO),
        "expires_in",
    );
    assert_invalid_config(
        objects.presign_get("bucket", "key").query_param(" x", "value"),
        "query parameter",
    );
    assert_invalid_config(
        objects.presign_get("bucket", "key").query_param("x-amz-user", "value"),
        "reserved",
    );
    assert_invalid_config(
        objects
            .presign_get("bucket", "key")
            .header(http::header::HOST, http::header::HeaderValue::from_static("example.com")),
        "SigV4-managed",
    );
    assert_invalid_config(
        objects.presign_get("bucket", "key").header(
            http::header::HeaderName::from_static("x-amz-meta-bin"),
            http::header::HeaderValue::from_bytes(&[0xff]).unwrap(),
        ),
        "header",
    );
}

#[test]
fn header_and_metadata_setters_reject_invalid_values() {
    let objects = test_objects();

    assert_invalid_config(objects.get("bucket", "key").if_match(" \"etag\""), "If-Match");
    assert_invalid_config(objects.get("bucket", "key").if_none_match(""), "If-None-Match");
    assert_invalid_config(
        objects.get("bucket", "key").if_modified_since(" date"),
        "If-Modified-Since",
    );
    assert_invalid_config(
        objects.get("bucket", "key").if_unmodified_since("date "),
        "If-Unmodified-Since",
    );
    assert_invalid_config(objects.put("bucket", "key").content_type(" text/plain"), "Content-Type");
    assert_invalid_config(objects.put("bucket", "key").if_match(" \"etag\""), "If-Match");
    assert_invalid_config(objects.put("bucket", "key").if_none_match(""), "If-None-Match");
    assert_invalid_config(objects.put("bucket", "key").metadata("", "value"), "metadata key");
    assert_invalid_config(
        objects
            .put("bucket", "key")
            .metadata("Trace", "a")
            .unwrap()
            .metadata("trace", "b"),
        "unique",
    );
    assert_invalid_config(
        objects.copy("source-bucket", "source-key", "bucket", "key").content_type(""),
        "Content-Type",
    );

    assert_invalid_config(
        objects.create_multipart_upload("bucket", "key").metadata("bad key", "value"),
        "metadata key",
    );
}

fn header<'a>(headers: &'a [(String, String)], name: &str) -> Option<&'a str> {
    headers
        .iter()
        .find(|(n, _)| n == name)
        .map(|(_, v)| v.as_str())
}

#[test]
fn put_object_request_applies_conditional_headers() {
    let request = test_objects()
        .put("bucket", "locks/my-lock")
        .if_none_match("*")
        .expect("If-None-Match wildcard should be valid")
        .if_match("\"etag\"")
        .expect("If-Match should be valid");

    let prepared = request.prepare().expect("headers should be valid");

    assert_eq!(header(&prepared.headers, "if-none-match"), Some("*"));
    assert_eq!(header(&prepared.headers, "if-match"), Some("\"etag\""));
}

#[test]
fn list_parts_setters_reject_invalid_values() {
    let objects = test_objects();

    assert_invalid_config(
        objects.list_parts("bucket", "key", "upload-id").max_parts(0),
        "max_parts",
    );
    assert_invalid_config(
        objects.list_parts("bucket", "key", "upload-id").part_number_marker(0),
        "part_number_marker",
    );
}

#[test]
fn put_bytes_rejects_mismatched_content_length() {
    let err = test_objects()
        .put("bucket", "key")
        .content_length(4)
        .body_bytes(b"abc".to_vec())
        .prepare()
        .expect_err("mismatched byte body content length must fail before transport");

    match err {
        Error::InvalidConfig { message } => assert!(message.contains("content_length")),
        other => panic!("expected InvalidConfig, got {other:?}"),
    }
}

#[test]
fn validate_upload_part_body_rejects_empty() {
    let err = validate_upload_part_body(&AsyncBody::Empty).expect_err("expected invalid body");
    match err {
        Error::InvalidConfig { message } => {
            assert!(message.contains("upload_part requires a request body"));
        }
        other => panic!("expected InvalidConfig, got {other:?}"),
    }
}

#[test]
fn validate_upload_part_number_rejects_out_of_range() {
    let err = validate_upload_part_number(0).expect_err("expected invalid part_number");
    match err {
        Error::InvalidConfig { message } => {
            assert!(message.contains("part_number"));
        }
        other => panic!("expected InvalidConfig, got {other:?}"),
    }

    let err = validate_upload_part_number(10_001).expect_err("expected invalid part_number");
    match err {
        Error::InvalidConfig { message } => {
            assert!(message.contains("part_number"));
        }
        other => panic!("expected InvalidConfig, got {other:?}"),
    }
}

#[test]
fn validate_upload_id_rejects_empty() {
    let err = validate_upload_id("   ").expect_err("expected invalid upload_id");
    match err {
        Error::InvalidConfig { message } => {
            assert!(message.contains("upload_id"));
        }
        other => panic!("expected InvalidConfig, got {other:?}"),
    }
}

#[test]
fn validate_max_parts_rejects_out_of_range() {
    let err = validate_max_parts(0).expect_err("expected invalid max_parts");
    match err {
        Error::InvalidConfig { message } => {
            assert!(message.contains("max_parts"));
        }
        other => panic!("expected InvalidConfig, got {other:?}"),
    }

    let err = validate_max_parts(1_001).expect_err("expected invalid max_parts");
    match err {
        Error::InvalidConfig { message } => {
            assert!(message.contains("max_parts"));
        }
        other => panic!("expected InvalidConfig, got {other:?}"),
    }
}

#[test]
fn validate_max_keys_rejects_out_of_range() {
    let err = validate_max_keys(0).expect_err("expected invalid max_keys");
    match err {
        Error::InvalidConfig { message } => {
            assert!(message.contains("max_keys"));
        }
        other => panic!("expected InvalidConfig, got {other:?}"),
    }

    let err = validate_max_keys(1_001).expect_err("expected invalid max_keys");
    match err {
        Error::InvalidConfig { message } => {
            assert!(message.contains("max_keys"));
        }
        other => panic!("expected InvalidConfig, got {other:?}"),
    }
}
