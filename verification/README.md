# s3_objects

Request builders for the object operations of an S3-compatible service:
get, head, put, delete, batch delete, copy, multipart uploads, listings
with paging, and presigning.

Every input is checked when it is set (header values, object keys, version
and upload ids, query values, limits, metadata keys, part numbers, batch
sizes), and every request is turned into a `PreparedRequest`: method,
bucket, key, query parameters, headers and body. The library is written in
Verus; each builder method and each `prepare` carries a contract that
states exactly what it accepts and what it produces.

The XML answers of the service are read by verified functions too: each
operation's answer becomes a typed output, and an S3 error document becomes
a service error with its code, message and request id.

Layout:

- `src/` — the verified library
  - `text.rs`, `validate.rs` — character classes, decimal rendering, the checks
  - `common.rs` — validated header texts, metadata, ranges, conditions, upload headers
  - `xml.rs`, `copy.rs`, `content_md5.rs` — XML escaping, URL encoding, and the Content-MD5 header of a batch delete (its digest from the md-5 crate)
  - `batch.rs` — batch-delete entries and completed parts (with their ordering)
  - `objects.rs`, `multipart.rs`, `listing.rs`, `presign.rs` — the builders
  - `request.rs` — the prepared request
  - `response.rs` — locating XML elements and reading their text, error documents
  - `decode.rs` — the typed answers of copy, multipart, listing and batch-delete calls
- `app/` — sending prepared requests through a caller-supplied transport and decoding the answers
- `tests/` — tests of the library
