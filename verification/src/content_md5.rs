use vstd::prelude::*;
use md5::Digest;
use crate::text::{is_blank, is_header_char, is_header_value, push_char};

verus! {

/// The MD5 digest of `data`, as the md-5 crate computes it.
pub uninterp spec fn md5_digest(data: Seq<u8>) -> Seq<u8>;

/// Calls `Md5::digest` of the md-5 crate; its output is the 16-byte MD5
/// digest of the input.
#[verifier::external_body]
fn md5(data: &[u8]) -> (d: Vec<u8>)
    ensures
        d@ == md5_digest(data@),
        d@.len() == 16,
{
    md5::Md5::digest(data).to_vec()
}

/// The base64 character for a six-bit value.
pub open spec fn b64_char(v: int) -> char {
    if v < 26 {
        (65 + v) as char
    } else if v < 52 {
        (97 + v - 26) as char
    } else if v < 62 {
        (48 + v - 52) as char
    } else if v == 62 {
        '+'
    } else {
        '/'
    }
}

/// Standard base64 (RFC 4648, with padding) of a byte string.
pub open spec fn base64(s: Seq<u8>) -> Seq<char>
    decreases s.len(),
{
    if s.len() == 0 {
        Seq::empty()
    } else {
        let a = s[0] as int;
        let b = if s.len() > 1 { s[1] as int } else { 0 };
        let c = if s.len() > 2 { s[2] as int } else { 0 };
        if s.len() == 1 {
            seq![b64_char(a / 4), b64_char((a % 4) * 16), '=', '=']
        } else if s.len() == 2 {
            seq![b64_char(a / 4), b64_char((a % 4) * 16 + b / 16), b64_char((b % 16) * 4), '=']
        } else {
            seq![
                b64_char(a / 4),
                b64_char((a % 4) * 16 + b / 16),
                b64_char((b % 16) * 4 + c / 64),
                b64_char(c % 64),
            ] + base64(s.skip(3))
        }
    }
}

fn b64_char_exec(v: u8) -> (c: char)
    requires
        v < 64,
    ensures
        c == b64_char(v as int),
{
    if v < 26 {
        (65u8 + v) as char
    } else if v < 52 {
        (97u8 + v - 26) as char
    } else if v < 62 {
        (48u8 + v - 52) as char
    } else if v == 62 {
        '+'
    } else {
        '/'
    }
}

/// Appends the base64 of `s`.
pub fn push_base64(out: &mut String, s: &[u8])
    ensures
        final(out)@ == old(out)@ + base64(s@),
{
    let n = s.len();
    let mut i: usize = 0;
    proof {
        assert(s@.skip(0) =~= s@);
    }
    while i < n
        invariant
            n == s@.len(),
            i <= n,
            out@ + base64(s@.skip(i as int)) == old(out)@ + base64(s@),
        decreases n - i,
    {
        let ghost rest = s@.skip(i as int);
        let ghost before = out@;
        let a = s[i];
        if n - i == 1 {
            push_char(out, b64_char_exec(a / 4));
            push_char(out, b64_char_exec((a % 4) * 16));
            push_char(out, '=');
            push_char(out, '=');
            proof {
                assert(out@ =~= before + base64(rest));
                assert(s@.skip(n as int) =~= Seq::<u8>::empty());
            }
            i = n;
        } else if n - i == 2 {
            let b = s[i + 1];
            push_char(out, b64_char_exec(a / 4));
            push_char(out, b64_char_exec((a % 4) * 16 + b / 16));
            push_char(out, b64_char_exec((b % 16) * 4));
            push_char(out, '=');
            proof {
                assert(out@ =~= before + base64(rest));
                assert(s@.skip(n as int) =~= Seq::<u8>::empty());
            }
            i = n;
        } else {
            let b = s[i + 1];
            let c = s[i + 2];
            push_char(out, b64_char_exec(a / 4));
            push_char(out, b64_char_exec((a % 4) * 16 + b / 16));
            push_char(out, b64_char_exec((b % 16) * 4 + c / 64));
            push_char(out, b64_char_exec(c % 64));
            proof {
                assert(rest.skip(3) =~= s@.skip(i + 3));
                assert(out@ + base64(s@.skip(i + 3)) =~= before + base64(rest));
            }
            i = i + 3;
        }
    }
    proof {
        assert(s@.skip(n as int) =~= Seq::<u8>::empty());
        assert(out@ =~= old(out)@ + base64(s@));
    }
}

/// A base64 character is a visible, non-blank header character.
proof fn lemma_b64_char_visible(v: int)
    requires
        0 <= v < 64,
    ensures
        is_header_char(b64_char(v)) && !is_blank(b64_char(v)),
{
}

/// Base64 text consists of visible characters and is never blank at either
/// end, so it can be sent as a header value when it is not empty.
pub proof fn lemma_base64_visible(s: Seq<u8>)
    ensures
        forall|i: int| 0 <= i < base64(s).len() ==> is_header_char(#[trigger] base64(s)[i]) && !is_blank(base64(s)[i]),
        s.len() > 0 ==> base64(s).len() > 0,
    decreases s.len(),
{
    if s.len() > 3 {
        lemma_base64_visible(s.skip(3));
    }
    if s.len() > 0 {
        let t = base64(s);
        let a = s[0] as int;
        let b = if s.len() > 1 { s[1] as int } else { 0 };
        let c = if s.len() > 2 { s[2] as int } else { 0 };
        lemma_b64_char_visible(a / 4);
        lemma_b64_char_visible((a % 4) * 16);
        lemma_b64_char_visible((a % 4) * 16 + b / 16);
        lemma_b64_char_visible((b % 16) * 4);
        lemma_b64_char_visible((b % 16) * 4 + c / 64);
        lemma_b64_char_visible(c % 64);
        let head = if s.len() == 1 {
            seq![b64_char(a / 4), b64_char((a % 4) * 16), '=', '=']
        } else if s.len() == 2 {
            seq![b64_char(a / 4), b64_char((a % 4) * 16 + b / 16), b64_char((b % 16) * 4), '=']
        } else {
            seq![
                b64_char(a / 4),
                b64_char((a % 4) * 16 + b / 16),
                b64_char((b % 16) * 4 + c / 64),
                b64_char(c % 64),
            ]
        };
        let tail = if s.len() > 3 { base64(s.skip(3)) } else { Seq::<char>::empty() };
        if s.len() == 1 {
            assert(t == seq![b64_char(a / 4), b64_char((a % 4) * 16), '=', '=']);
        } else if s.len() == 2 {
            assert(t == seq![b64_char(a / 4), b64_char((a % 4) * 16 + b / 16), b64_char((b % 16) * 4), '=']);
        } else {
            assert(t == head + base64(s.skip(3)));
        }
        assert(t =~= head + tail);
        assert forall|i: int| 0 <= i < t.len() implies is_header_char(#[trigger] t[i]) && !is_blank(t[i]) by {
            if i >= 4 {
                assert(t[i] == tail[i - 4]);
            } else {
                assert(t[i] == head[i]);
            }
        }
    }
}

/// The `Content-MD5` value of a body: the base64 of its MD5 digest.
pub open spec fn content_md5_text(body: Seq<u8>) -> Seq<char> {
    base64(md5_digest(body))
}

/// Computes the `Content-MD5` value of a body.
pub fn content_md5(body: &[u8]) -> (s: String)
    ensures
        s@ == content_md5_text(body@),
        is_header_value(s@),
{
    let d = md5(body);
    let mut s = String::new();
    push_base64(&mut s, d.as_slice());
    proof {
        lemma_base64_visible(d@);
        assert(s@ =~= base64(d@));
    }
    s
}

} // verus!
