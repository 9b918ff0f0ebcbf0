use s3_objects::decode::{
    parse_complete_multipart_upload, parse_copy_object, parse_create_multipart_upload,
    parse_delete_objects, parse_list_objects_v2, parse_list_parts, parse_upload_part_copy,
};
use s3_objects::error::Error;
use s3_objects::xml::push_escaped;
use s3_objects::response::{parse_xml_or_service_error, service_error};

fn decode_message<T>(result: Result<T, Error>) -> String {
    match result {
        Err(Error::Decode { message }) => message,
        Err(other) => panic!("expected Decode error, got {other:?}"),
        Ok(_) => panic!("expected an error"),
    }
}

#[test]
fn parse_xml_or_service_error_maps_error_xml_as_api_error() {
    let body = r#"
<Error>
  <Code>InternalError</Code>
  <Message>backend failure</Message>
</Error>
"#;

    let err = parse_xml_or_service_error::<()>(
        200,
        Some("req-1"),
        body,
        Err(Error::decode("failed to parse success XML")),
    )
    .expect_err("expected service error mapping");

    match err {
        Error::Api { status, code, message, request_id } => {
            assert_eq!(status, 200);
            assert_eq!(code.as_deref(), Some("InternalError"));
            assert_eq!(message.as_deref(), Some("backend failure"));
            assert_eq!(request_id.as_deref(), Some("req-1"));
        }
        other => panic!("expected Api error, got {other:?}"),
    }
}

#[test]
fn parse_xml_or_service_error_preserves_decode_error_for_plain_body() {
    let err = parse_xml_or_service_error::<()>(
        200,
        None,
        "not-xml",
        Err(Error::decode("failed to parse success XML")),
    )
    .expect_err("expected parse failure");

    match err {
        Error::Decode { .. } => {}
        other => panic!("expected Decode error, got {other:?}"),
    }
}

#[test]
fn decoded_value_is_kept() {
    let r = parse_xml_or_service_error(200, None, "<Error><Code>X</Code></Error>", Ok(7u32));
    assert_eq!(r.unwrap(), 7);
}

#[test]
fn service_error_reads_declaration_entities_and_missing_fields() {
    let body = "<?xml version=\"1.0\" encoding=\"UTF-8\"?>\n<Error><Code>NoSuchKey</Code><Message>a &lt;b&gt; &amp; &quot;c&quot; &apos;d&apos;</Message></Error>";
    match service_error(404, None, body) {
        Some(Error::Api { status, code, message, request_id }) => {
            assert_eq!(status, 404);
            assert_eq!(code.as_deref(), Some("NoSuchKey"));
            assert_eq!(message.as_deref(), Some("a <b> & \"c\" 'd'"));
            assert_eq!(request_id, None);
        }
        other => panic!("expected Api error, got {other:?}"),
    }
    match service_error(500, Some("r"), "<Error></Error>") {
        Some(Error::Api { code, message, .. }) => {
            assert_eq!(code, None);
            assert_eq!(message, None);
        }
        other => panic!("expected Api error, got {other:?}"),
    }
    assert!(service_error(200, None, "<ListBucketResult><Error>x</Error></ListBucketResult>").is_none());
    assert!(service_error(200, None, "<Errors></Errors>").is_none());
    assert!(service_error(200, None, "").is_none());
    let e = service_error(403, None, "<Error><Code>AccessDenied</Code></Error>").unwrap();
    assert_eq!(e.message(), "AccessDenied");
}

#[test]
fn copy_answers_are_read() {
    let body = "<CopyObjectResult><LastModified>2024-01-02T03:04:05.000Z</LastModified><ETag>&quot;abc&quot;</ETag></CopyObjectResult>";
    let o = parse_copy_object(body).unwrap();
    assert_eq!(o.etag.as_deref(), Some("\"abc\""));
    assert_eq!(o.last_modified.as_deref(), Some("2024-01-02T03:04:05.000Z"));
    assert_eq!(
        decode_message(parse_copy_object("<CopyPartResult></CopyPartResult>")),
        "expected a CopyObjectResult document"
    );
    let p = parse_upload_part_copy("<CopyPartResult><ETag>e</ETag></CopyPartResult>").unwrap();
    assert_eq!(p.etag.as_deref(), Some("e"));
    assert_eq!(p.last_modified, None);
    assert_eq!(
        decode_message(parse_upload_part_copy("oops")),
        "expected a CopyPartResult document"
    );
}

#[test]
fn multipart_answers_are_read() {
    let body = "<?xml version=\"1.0\"?>\n<InitiateMultipartUploadResult xmlns=\"http://s3.amazonaws.com/doc/2006-03-01/\"><Bucket>b</Bucket><Key>k/1</Key><UploadId>up-1</UploadId></InitiateMultipartUploadResult>";
    let o = parse_create_multipart_upload(body).unwrap();
    assert_eq!(o.bucket.as_deref(), Some("b"));
    assert_eq!(o.key.as_deref(), Some("k/1"));
    assert_eq!(o.upload_id, "up-1");
    assert_eq!(
        decode_message(parse_create_multipart_upload("<InitiateMultipartUploadResult><Bucket>b</Bucket></InitiateMultipartUploadResult>")),
        "CreateMultipartUpload response has no UploadId"
    );
    assert_eq!(
        decode_message(parse_create_multipart_upload("<Other/>")),
        "expected an InitiateMultipartUploadResult document"
    );
    let c = parse_complete_multipart_upload(
        "<CompleteMultipartUploadResult><Location>https://h/b/k</Location><Bucket>b</Bucket><Key>k</Key><ETag>\"x-2\"</ETag></CompleteMultipartUploadResult>",
    )
    .unwrap();
    assert_eq!(c.location.as_deref(), Some("https://h/b/k"));
    assert_eq!(c.bucket.as_deref(), Some("b"));
    assert_eq!(c.key.as_deref(), Some("k"));
    assert_eq!(c.etag.as_deref(), Some("\"x-2\""));
    assert_eq!(
        decode_message(parse_complete_multipart_upload("<Error><Code>E</Code></Error>")),
        "expected a CompleteMultipartUploadResult document"
    );
}

#[test]
fn listing_answer_is_read() {
    let body = "<?xml version=\"1.0\" encoding=\"UTF-8\"?>\n<ListBucketResult xmlns=\"http://s3.amazonaws.com/doc/2006-03-01/\">\
<Name>bucket</Name><Prefix>photos/</Prefix><Delimiter>/</Delimiter><KeyCount>3</KeyCount><MaxKeys>1000</MaxKeys>\
<IsTruncated>true</IsTruncated><ContinuationToken>t1</ContinuationToken><NextContinuationToken>t2</NextContinuationToken>\
<Contents><Key>photos/a&amp;b.jpg</Key><LastModified>2024-01-01T00:00:00.000Z</LastModified><ETag>&quot;e1&quot;</ETag><Size>11</Size><StorageClass>STANDARD</StorageClass></Contents>\
<Contents><Key>photos/c.jpg</Key></Contents>\
<CommonPrefixes><Prefix>photos/2023/</Prefix></CommonPrefixes></ListBucketResult>";
    let o = parse_list_objects_v2(body).unwrap();
    assert_eq!(o.name.as_deref(), Some("bucket"));
    assert_eq!(o.prefix.as_deref(), Some("photos/"));
    assert_eq!(o.delimiter.as_deref(), Some("/"));
    assert_eq!(o.key_count, Some(3));
    assert_eq!(o.max_keys, Some(1000));
    assert!(o.is_truncated);
    assert_eq!(o.continuation_token.as_deref(), Some("t1"));
    assert_eq!(o.next_continuation_token.as_deref(), Some("t2"));
    assert_eq!(o.start_after, None);
    assert_eq!(o.contents.len(), 2);
    assert_eq!(o.contents[0].key, "photos/a&b.jpg");
    assert_eq!(o.contents[0].etag.as_deref(), Some("\"e1\""));
    assert_eq!(o.contents[0].size, Some(11));
    assert_eq!(o.contents[0].storage_class.as_deref(), Some("STANDARD"));
    assert_eq!(o.contents[1].key, "photos/c.jpg");
    assert_eq!(o.contents[1].size, None);
    assert_eq!(o.common_prefixes, vec!["photos/2023/".to_string()]);

    let only_common = "<ListBucketResult><IsTruncated>false</IsTruncated><CommonPrefixes><Prefix>a/</Prefix></CommonPrefixes></ListBucketResult>";
    let o = parse_list_objects_v2(only_common).unwrap();
    assert_eq!(o.prefix, None);
    assert!(!o.is_truncated);
    assert!(o.contents.is_empty());
    assert_eq!(o.common_prefixes, vec!["a/".to_string()]);
}

#[test]
fn unreadable_listings_are_refused() {
    for body in [
        "<ListPartsResult></ListPartsResult>",
        "<ListBucketResult><KeyCount>many</KeyCount></ListBucketResult>",
        "<ListBucketResult><Contents><Size>1</Size></Contents></ListBucketResult>",
        "<ListBucketResult><Contents><Key>k</Key><Size>-1</Size></Contents></ListBucketResult>",
        "<ListBucketResult><CommonPrefixes></CommonPrefixes></ListBucketResult>",
    ] {
        assert_eq!(decode_message(parse_list_objects_v2(body)), "invalid ListObjectsV2 response");
    }
}

#[test]
fn parts_answer_is_read() {
    let body = "<ListPartsResult><Bucket>b</Bucket><Key>k</Key><UploadId>u</UploadId>\
<PartNumberMarker>0</PartNumberMarker><NextPartNumberMarker>2</NextPartNumberMarker><MaxParts>2</MaxParts><IsTruncated>true</IsTruncated>\
<Part><PartNumber>1</PartNumber><ETag>\"p1\"</ETag><Size>5242880</Size></Part>\
<Part><PartNumber>2</PartNumber><LastModified>d</LastModified></Part></ListPartsResult>";
    let o = parse_list_parts(body).unwrap();
    assert_eq!(o.bucket.as_deref(), Some("b"));
    assert_eq!(o.key.as_deref(), Some("k"));
    assert_eq!(o.upload_id.as_deref(), Some("u"));
    assert_eq!(o.part_number_marker, Some(0));
    assert_eq!(o.next_part_number_marker, Some(2));
    assert_eq!(o.max_parts, Some(2));
    assert!(o.is_truncated);
    assert_eq!(o.parts.len(), 2);
    assert_eq!(o.parts[0].part_number, 1);
    assert_eq!(o.parts[0].etag.as_deref(), Some("\"p1\""));
    assert_eq!(o.parts[0].size, Some(5242880));
    assert_eq!(o.parts[1].part_number, 2);
    assert_eq!(o.parts[1].last_modified.as_deref(), Some("d"));
    assert_eq!(
        decode_message(parse_list_parts("<ListPartsResult><Part><ETag>x</ETag></Part></ListPartsResult>")),
        "invalid ListParts response"
    );
}

#[test]
fn batch_delete_answer_is_read() {
    let body = "<DeleteResult><Deleted><Key>a</Key></Deleted><Deleted><Key>b</Key><VersionId>v</VersionId><DeleteMarker>true</DeleteMarker></Deleted>\
<Error><Key>c</Key><Code>AccessDenied</Code><Message>Access Denied</Message></Error></DeleteResult>";
    let o = parse_delete_objects(body).unwrap();
    assert_eq!(o.deleted.len(), 2);
    assert_eq!(o.deleted[0].key.as_deref(), Some("a"));
    assert!(!o.deleted[0].delete_marker);
    assert_eq!(o.deleted[1].version_id.as_deref(), Some("v"));
    assert!(o.deleted[1].delete_marker);
    assert_eq!(o.errors.len(), 1);
    assert_eq!(o.errors[0].key.as_deref(), Some("c"));
    assert_eq!(o.errors[0].code.as_deref(), Some("AccessDenied"));
    assert_eq!(o.errors[0].message.as_deref(), Some("Access Denied"));
    assert_eq!(o.errors[0].version_id, None);
    assert!(parse_delete_objects("<DeleteResult/>").unwrap().errors.is_empty());
    assert!(parse_delete_objects("<DeleteResults></DeleteResults>").is_err());
    assert!(parse_delete_objects("<DeleteResult></DeleteResult>").unwrap().deleted.is_empty());
}

#[test]
fn escaped_key_reads_back() {
    let key = "a<b>&'\"c d";
    let mut escaped = String::new();
    push_escaped(&mut escaped, key);
    let body = format!("<DeleteResult><Deleted><Key>{escaped}</Key></Deleted></DeleteResult>");
    let o = parse_delete_objects(&body).unwrap();
    assert_eq!(o.deleted[0].key.as_deref(), Some(key));
}

#[test]
fn error_document_is_reported_by_every_reader() {
    let body = "<Error><Code>SlowDown</Code><Message>Please reduce your request rate.</Message><RequestId>x</RequestId></Error>";
    assert!(parse_copy_object(body).is_err());
    assert!(parse_upload_part_copy(body).is_err());
    assert!(parse_create_multipart_upload(body).is_err());
    assert!(parse_complete_multipart_upload(body).is_err());
    assert!(parse_list_objects_v2(body).is_err());
    assert!(parse_list_parts(body).is_err());
    assert!(parse_delete_objects(body).is_err());
    match parse_xml_or_service_error(200, Some("id-9"), body, parse_complete_multipart_upload(body)) {
        Err(Error::Api { status, code, message, request_id }) => {
            assert_eq!(status, 200);
            assert_eq!(code.as_deref(), Some("SlowDown"));
            assert_eq!(message.as_deref(), Some("Please reduce your request rate."));
            assert_eq!(request_id.as_deref(), Some("id-9"));
        }
        Err(other) => panic!("expected Api error, got {other:?}"),
        Ok(_) => panic!("expected an error"),
    }
    assert_eq!(Error::decode("bad").message(), "bad");
}
