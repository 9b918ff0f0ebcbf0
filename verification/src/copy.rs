use vstd::prelude::*;
use vstd::string::StringSliceAdditionalSpecFns;
use crate::common::{
    all_header_values, lemma_header_values_concat, lemma_opt_pair_header, metadata_header_name, metadata_headers, opt_header_text, opt_pair, push_opt_header, push_pair, HeaderText,
    Metadata, Pairs,
};
use crate::error::{Error, is_config_error};
use crate::text::{check_object_key, is_blank, is_header_char, is_header_value, is_object_key, push_char};

verus! {

/// A byte that URL encoding leaves as it is (RFC 3986 unreserved).
pub open spec fn is_unreserved_byte(b: u8) -> bool {
    ||| 65 <= b <= 90
    ||| 97 <= b <= 122
    ||| 48 <= b <= 57
    ||| b == 45 || b == 46 || b == 95 || b == 126
}

/// The upper-case hexadecimal digit for `d` (below sixteen).
pub open spec fn hex_digit(d: int) -> char {
    if d < 10 {
        (48 + d) as char
    } else {
        (55 + d) as char
    }
}

/// The URL encoding of one byte; `/` is kept when `keep_slash`.
pub open spec fn encode_byte(b: u8, keep_slash: bool) -> Seq<char> {
    if is_unreserved_byte(b) || (keep_slash && b == 47) {
        seq![b as char]
    } else {
        seq!['%', hex_digit(b as int / 16), hex_digit(b as int % 16)]
    }
}

/// The URL encoding of a byte string.
pub open spec fn percent_encode(bytes: Seq<u8>, keep_slash: bool) -> Seq<char>
    decreases bytes.len(),
{
    if bytes.len() == 0 {
        Seq::empty()
    } else {
        encode_byte(bytes[0], keep_slash) + percent_encode(bytes.skip(1), keep_slash)
    }
}

/// Encoding one more byte appends that byte's encoding.
pub proof fn lemma_percent_encode_push(bytes: Seq<u8>, b: u8, keep_slash: bool)
    ensures
        percent_encode(bytes.push(b), keep_slash) == percent_encode(bytes, keep_slash) + encode_byte(b, keep_slash),
    decreases bytes.len(),
{
    if bytes.len() == 0 {
        assert(bytes.push(b).skip(1) =~= Seq::<u8>::empty());
        assert(percent_encode(Seq::<u8>::empty(), keep_slash) == Seq::<char>::empty());
        assert(bytes.push(b)[0] == b);
        assert(percent_encode(bytes.push(b), keep_slash) =~= percent_encode(bytes, keep_slash) + encode_byte(b, keep_slash));
    } else {
        lemma_percent_encode_push(bytes.skip(1), b, keep_slash);
        assert(bytes.push(b).skip(1) =~= bytes.skip(1).push(b));
        assert(bytes.push(b)[0] == bytes[0]);
        assert(percent_encode(bytes.push(b), keep_slash) =~= percent_encode(bytes, keep_slash) + encode_byte(b, keep_slash));
    }
}

/// An upper-case hexadecimal digit.
pub open spec fn is_hex_digit(c: char) -> bool {
    ('0' <= c && c <= '9') || ('A' <= c && c <= 'F')
}

/// The value of a hexadecimal digit.
pub open spec fn hex_value(c: char) -> int {
    if c <= '9' {
        c as int - 48
    } else {
        c as int - 55
    }
}

/// The bytes that URL decoding gives: `%` and two hexadecimal digits give
/// one byte, any other character gives its own code.
pub open spec fn percent_decode(t: Seq<char>) -> Seq<u8>
    decreases t.len(),
{
    if t.len() == 0 {
        Seq::empty()
    } else if t[0] == '%' && t.len() >= 3 && is_hex_digit(t[1]) && is_hex_digit(t[2]) {
        seq![(hex_value(t[1]) * 16 + hex_value(t[2])) as u8] + percent_decode(t.skip(3))
    } else {
        seq![t[0] as u8] + percent_decode(t.skip(1))
    }
}

/// Decoding an encoding gives back the bytes: the copy source names
/// exactly the given bucket, key and version.
pub proof fn law_percent_encoding_round_trip(bytes: Seq<u8>, keep_slash: bool)
    ensures
        percent_decode(percent_encode(bytes, keep_slash)) == bytes,
    decreases bytes.len(),
{
    if bytes.len() > 0 {
        law_percent_encoding_round_trip(bytes.skip(1), keep_slash);
        let b = bytes[0];
        let e = encode_byte(b, keep_slash);
        let rest = percent_encode(bytes.skip(1), keep_slash);
        let t = percent_encode(bytes, keep_slash);
        assert(t == e + rest);
        assert(t.skip(e.len() as int) =~= rest);
        if is_unreserved_byte(b) || (keep_slash && b == 47) {
            assert(t[0] == b as char);
            assert((b as char) as u8 == b);
            assert(b != 37);
            assert(t[0] != '%');
        } else {
            let hi = b as int / 16;
            let lo = b as int % 16;
            assert(t[0] == '%');
            assert(t[1] == hex_digit(hi));
            assert(t[2] == hex_digit(lo));
            assert(is_hex_digit(hex_digit(hi)) && hex_value(hex_digit(hi)) == hi);
            assert(is_hex_digit(hex_digit(lo)) && hex_value(hex_digit(lo)) == lo);
            assert((hi * 16 + lo) as u8 == b);
        }
        assert(percent_decode(t) =~= bytes);
    }
}

fn hex_digit_exec(d: u8) -> (c: char)
    requires
        d < 16,
    ensures
        c == hex_digit(d as int),
{
    if d < 10 {
        (48u8 + d) as char
    } else {
        (55u8 + d) as char
    }
}

/// Appends the URL encoding of the UTF-8 bytes of `s`.
pub fn push_percent_encoded(out: &mut String, s: &str, keep_slash: bool)
    ensures
        final(out)@ == old(out)@ + percent_encode(s.spec_bytes(), keep_slash),
{
    let bytes = s.as_bytes();
    let n = bytes.len();
    let mut i: usize = 0;
    while i < n
        invariant
            n == bytes@.len(),
            bytes@ == s.spec_bytes(),
            i <= n,
            out@ == old(out)@ + percent_encode(bytes@.take(i as int), keep_slash),
        decreases n - i,
    {
        let b = bytes[i];
        let ghost before = out@;
        let unreserved = (65 <= b && b <= 90) || (97 <= b && b <= 122) || (48 <= b && b <= 57)
            || b == 45 || b == 46 || b == 95 || b == 126;
        if unreserved || (keep_slash && b == 47) {
            push_char(out, b as char);
        } else {
            push_char(out, '%');
            push_char(out, hex_digit_exec(b / 16));
            push_char(out, hex_digit_exec(b % 16));
        }
        proof {
            assert(out@ =~= before + encode_byte(b, keep_slash));
            assert(bytes@.take(i + 1) =~= bytes@.take(i as int).push(b));
            lemma_percent_encode_push(bytes@.take(i as int), b, keep_slash);
        }
        i += 1;
    }
    proof {
        assert(bytes@.take(n as int) =~= bytes@);
    }
}

/// Every character of a URL encoding is a visible, non-blank header character.
pub proof fn lemma_percent_encode_visible(bytes: Seq<u8>, keep_slash: bool)
    ensures
        forall|i: int| 0 <= i < percent_encode(bytes, keep_slash).len() ==>
            is_header_char(#[trigger] percent_encode(bytes, keep_slash)[i]) && !is_blank(percent_encode(bytes, keep_slash)[i]),
    decreases bytes.len(),
{
    if bytes.len() > 0 {
        lemma_percent_encode_visible(bytes.skip(1), keep_slash);
        let a = encode_byte(bytes[0], keep_slash);
        let e = percent_encode(bytes.skip(1), keep_slash);
        let t = percent_encode(bytes, keep_slash);
        assert(t == a + e);
        assert forall|i: int| 0 <= i < t.len() implies is_header_char(#[trigger] t[i]) && !is_blank(t[i]) by {
            if i >= a.len() {
                assert(t[i] == e[i - a.len()]);
            } else {
                assert(t[i] == a[i]);
            }
        }
    }
}

/// The `x-amz-copy-source` value: the encoded bucket, `/`, the encoded key
/// (slashes kept) and, when given, `?versionId=` and the encoded version.
pub open spec fn copy_source_text(bucket: Seq<char>, key: Seq<char>, version_id: Option<Seq<char>>) -> Seq<char> {
    percent_encode(vstd::utf8::encode_utf8(bucket), false) + "/"@ + percent_encode(
        vstd::utf8::encode_utf8(key),
        true,
    ) + match version_id {
        Some(v) => "?versionId="@ + percent_encode(vstd::utf8::encode_utf8(v), false),
        None => Seq::empty(),
    }
}

/// A copy source value can always be sent as a header value.
pub proof fn law_copy_source_is_header_value(bucket: Seq<char>, key: Seq<char>, version_id: Option<Seq<char>>)
    ensures
        is_header_value(copy_source_text(bucket, key, version_id)),
{
    reveal_strlit("/");
    reveal_strlit("?versionId=");
    let a = percent_encode(vstd::utf8::encode_utf8(bucket), false);
    let b = percent_encode(vstd::utf8::encode_utf8(key), true);
    let c = match version_id {
        Some(v) => "?versionId="@ + percent_encode(vstd::utf8::encode_utf8(v), false),
        None => Seq::empty(),
    };
    lemma_percent_encode_visible(vstd::utf8::encode_utf8(bucket), false);
    lemma_percent_encode_visible(vstd::utf8::encode_utf8(key), true);
    let t = copy_source_text(bucket, key, version_id);
    assert(t == a + "/"@ + b + c);
    if let Some(v) = version_id {
        lemma_percent_encode_visible(vstd::utf8::encode_utf8(v), false);
    }
    assert forall|i: int| 0 <= i < t.len() implies is_header_char(#[trigger] t[i]) && !is_blank(t[i]) by {
        if i < a.len() {
            assert(t[i] == a[i]);
        } else if i == a.len() {
        } else if i < a.len() + 1 + b.len() {
            assert(t[i] == b[i - a.len() - 1]);
        } else {
            let j = i - a.len() - 1 - b.len();
            assert(t[i] == c[j]);
            if let Some(v) = version_id {
                let d = percent_encode(vstd::utf8::encode_utf8(v), false);
                if j >= 11 {
                    assert(c[j] == d[j - 11]);
                }
            }
        }
    }
    assert(!is_blank(t[0]));
    assert(!is_blank(t[t.len() - 1]));
}

/// Builds the `x-amz-copy-source` value; the source key must be an acceptable object key.
pub fn copy_source_header_value(bucket: &str, key: &str, version_id: Option<&str>) -> (r: Result<String, Error>)
    ensures
        r is Ok <==> is_object_key(key@),
        r matches Ok(s) ==> s@ == copy_source_text(
            bucket@,
            key@,
            match version_id {
                Some(v) => Some(v@),
                None => None,
            },
        ),
        r matches Ok(s) ==> is_header_value(s@),
        r matches Err(e) ==> is_config_error(e, "invalid object key"@),
{
    if !check_object_key(key) {
        return Err(Error::invalid_config("invalid object key"));
    }
    let mut out = String::new();
    push_percent_encoded(&mut out, bucket, false);
    out.append("/");
    push_percent_encoded(&mut out, key, true);
    match version_id {
        Some(v) => {
            out.append("?versionId=");
            push_percent_encoded(&mut out, v, false);
        },
        None => {},
    }
    let ghost vo = match version_id {
        Some(v) => Some(v@),
        None => None::<Seq<char>>,
    };
    proof {
        assert(bucket.spec_bytes() == vstd::utf8::encode_utf8(bucket@));
        assert(key.spec_bytes() == vstd::utf8::encode_utf8(key@));
        if let Some(v) = version_id {
            assert(v.spec_bytes() == vstd::utf8::encode_utf8(v@));
        }
        assert(out@ =~= copy_source_text(bucket@, key@, vo));
        law_copy_source_is_header_value(bucket@, key@, vo);
    }
    Ok(out)
}

/// The headers that set a copy's metadata: with `replace`, the REPLACE
/// directive, the content type and the metadata; without it, none, and a
/// content type or metadata is refused.
pub open spec fn copy_metadata_headers(replace: bool, content_type: Option<Seq<char>>, metadata: Pairs) -> Result<Pairs, Seq<char>> {
    if replace {
        Ok(seq![("x-amz-metadata-directive"@, "REPLACE"@)] + opt_pair("content-type"@, content_type)
            + metadata_headers(metadata))
    } else if content_type is Some || metadata.len() > 0 {
        Err("content_type and metadata require replace_metadata"@)
    } else {
        Ok(Seq::empty())
    }
}

/// Appends the headers of `copy_metadata_headers`, or fails as it says.
pub fn apply_copy_metadata_headers(
    headers: &mut Vec<(String, String)>,
    replace: bool,
    content_type: &Option<HeaderText>,
    metadata: &Metadata,
) -> (r: Result<(), Error>)
    ensures
        match copy_metadata_headers(replace, opt_header_text(*content_type), metadata@) {
            Ok(p) => r is Ok && final(headers).deep_view() == old(headers).deep_view() + p,
            Err(msg) => r matches Err(e) && is_config_error(e, msg),
        },
        r is Ok && all_header_values(old(headers).deep_view()) ==> all_header_values(final(headers).deep_view()),
{
    if replace {
        push_pair(headers, "x-amz-metadata-directive", String::from_str("REPLACE"));
        push_opt_header(headers, "content-type", content_type);
        metadata.push_headers(headers);
        proof {
            reveal_strlit("REPLACE");
            let p = copy_metadata_headers(replace, opt_header_text(*content_type), metadata@)->Ok_0;
            let d = seq![("x-amz-metadata-directive"@, "REPLACE"@)];
            assert(all_header_values(d));
            lemma_opt_pair_header("content-type"@, opt_header_text(*content_type));
            lemma_header_values_concat(d, opt_pair("content-type"@, opt_header_text(*content_type)));
            lemma_header_values_concat(
                d + opt_pair("content-type"@, opt_header_text(*content_type)),
                metadata_headers(metadata@),
            );
            if all_header_values(old(headers).deep_view()) {
                lemma_header_values_concat(old(headers).deep_view(), p);
            }
            assert(final(headers).deep_view() =~= old(headers).deep_view() + copy_metadata_headers(
                replace,
                opt_header_text(*content_type),
                metadata@,
            )->Ok_0);
        }
        Ok(())
    } else if content_type.is_some() || metadata.len() > 0 {
        Err(Error::invalid_config("content_type and metadata require replace_metadata"))
    } else {
        proof {
            assert(headers.deep_view() =~= old(headers).deep_view() + Seq::<(Seq<char>, Seq<char>)>::empty());
        }
        Ok(())
    }
}

/// Asking to replace a copy's metadata always sends the REPLACE directive
/// first, whatever content type and metadata come with it (none included),
/// followed by the content type and one header per metadata entry; without
/// it, nothing is sent, and a content type or metadata is refused.
pub proof fn law_replace_metadata_sends_directive(content_type: Option<Seq<char>>, metadata: Pairs)
    ensures
        copy_metadata_headers(true, content_type, metadata) matches Ok(h) && h.len() > 0
            && h[0] == ("x-amz-metadata-directive"@, "REPLACE"@)
            && (content_type matches Some(v) ==> h.contains(("content-type"@, v)))
            && forall|i: int| 0 <= i < metadata.len() ==> h.contains(
                (metadata_header_name(#[trigger] metadata[i].0), metadata[i].1),
            ),
        copy_metadata_headers(false, content_type, metadata) is Ok <==> (content_type is None && metadata.len() == 0),
        copy_metadata_headers(false, content_type, metadata) matches Ok(h) ==> h.len() == 0,
{
    let d = seq![("x-amz-metadata-directive"@, "REPLACE"@)];
    let c = opt_pair("content-type"@, content_type);
    let mh = metadata_headers(metadata);
    let h = d + c + mh;
    assert(h[0] == d[0]);
    if let Some(v) = content_type {
        assert(h[1] == ("content-type"@, v));
    }
    assert forall|i: int| 0 <= i < metadata.len() implies h.contains(
        (metadata_header_name(#[trigger] metadata[i].0), metadata[i].1),
    ) by {
        assert(h[1 + c.len() + i] == mh[i]);
    }
}

} // verus!
