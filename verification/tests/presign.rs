use std::time::Duration;

use s3_objects::error::Error;
use s3_objects::objects::ObjectsService;

fn message<T>(result: Result<T, Error>) -> String {
    match result {
        Err(Error::InvalidConfig { message }) => message,
        Err(other) => panic!("expected InvalidConfig, got {other:?}"),
        Ok(_) => panic!("expected an error"),
    }
}

#[test]
fn presign_plan_defaults_to_fifteen_minutes() {
    let plan = ObjectsService::new().presign_get("bucket", "reports/q1.csv").build();
    assert_eq!(plan.method, "GET");
    assert_eq!(plan.bucket, "bucket");
    assert_eq!(plan.key, "reports/q1.csv");
    assert_eq!(plan.expires_secs, 900);
    assert!(plan.query.is_empty());
    assert!(plan.headers.is_empty());
}

#[test]
fn presign_expires_in_reads_the_duration() {
    let plan = ObjectsService::new()
        .presign_put("b", "k")
        .expires_in(Duration::from_secs(300))
        .unwrap()
        .build();
    assert_eq!(plan.method, "PUT");
    assert_eq!(plan.expires_secs, 300);
    let week = Duration::from_secs(604800);
    assert!(ObjectsService::new().presign_head("b", "k").expires_in(week).is_ok());
    assert_eq!(
        message(ObjectsService::new().presign_head("b", "k").expires_in(week + Duration::from_nanos(1))),
        "expires_in must be between 1 second and 7 days"
    );
    assert!(ObjectsService::new().presign_delete("b", "k").expires_in(Duration::from_millis(500)).is_err());
    assert!(ObjectsService::new().presign_delete("b", "k").expires_in_parts(1, 999_999_999).is_ok());
}

#[test]
fn presign_headers_replace_and_carry_metadata_last() {
    let plan = ObjectsService::new()
        .presign(http::Method::POST, "b", "k")
        .header(
            http::header::HeaderName::from_static("x-custom"),
            http::header::HeaderValue::from_static("one"),
        )
        .unwrap()
        .header_parts("X-Custom", b"two")
        .unwrap()
        .header_parts("content-md5", b"abc")
        .unwrap()
        .metadata("Owner", "me")
        .unwrap()
        .query_param("response-content-type", "text/plain")
        .unwrap()
        .build();
    assert_eq!(plan.method, "POST");
    assert_eq!(
        plan.headers,
        vec![
            ("x-custom".to_string(), b"two".to_vec()),
            ("content-md5".to_string(), b"abc".to_vec()),
            ("x-amz-meta-owner".to_string(), b"me".to_vec()),
        ]
    );
    assert_eq!(plan.query, vec![("response-content-type".to_string(), "text/plain".to_string())]);
}

#[test]
fn presign_refusals() {
    let s = ObjectsService::new();
    assert_eq!(
        message(s.presign_get("b", "k").header_parts("X-Amz-Date", b"x")),
        "presign header is SigV4-managed"
    );
    assert_eq!(message(s.presign_get("b", "k").header_parts("a b", b"x")), "invalid presign header name");
    assert_eq!(message(s.presign_get("b", "k").header_parts("a", &[0x7f])), "invalid presign header value");
    assert_eq!(
        message(s.presign_get("b", "k").query_param("X-AMZ-Signature", "v")),
        "presign query parameter is reserved"
    );
    assert_eq!(
        message(s.presign_get("b", "k").query_param("a", "v\n")),
        "invalid presign query parameter value"
    );
    assert_eq!(message(s.presign_put("b", "k").metadata("", "v")), "invalid metadata key");
}

#[test]
fn presign_header_takes_name_and_bytes_as_given() {
    let plan = ObjectsService::new()
        .presign_get("b", "k")
        .header(
            http::header::HeaderName::from_static("x-trace"),
            http::header::HeaderValue::from_static("abc 123"),
        )
        .unwrap()
        .build();
    assert_eq!(plan.headers, vec![("x-trace".to_string(), b"abc 123".to_vec())]);
    assert_eq!(
        message(ObjectsService::new().presign_get("b", "k").header(
            http::header::HeaderName::from_static("x-trace"),
            http::header::HeaderValue::from_bytes(&[0x61, 0x80]).unwrap(),
        )),
        "invalid presign header value"
    );
    assert_eq!(
        message(ObjectsService::new().presign_put("b", "k").header(
            http::header::AUTHORIZATION,
            http::header::HeaderValue::from_static("x"),
        )),
        "presign header is SigV4-managed"
    );
}

#[test]
fn presign_takes_any_http_method() {
    let patch = ObjectsService::new().presign(http::Method::PATCH, "b", "k").build();
    assert_eq!(patch.method, "PATCH");
    let custom = http::Method::from_bytes(b"PURGE").unwrap();
    let plan = ObjectsService::new()
        .presign(custom, "b", "k")
        .expires_in(Duration::from_secs(60))
        .unwrap()
        .build();
    assert_eq!(plan.method, "PURGE");
    assert_eq!(plan.expires_secs, 60);
}
