use vstd::prelude::*;
use crate::text::push_char;
use crate::xml::{law_escaped_text_has_no_angle_brackets, law_xml_escape_round_trip, xml_escape, xml_unescape};
use crate::common::opt_text;
use crate::error::{Error, is_decode_error};
use crate::text::{parse_u64_text, u64_text_value};

verus! {

/// The characters of `s`, in order.
pub fn chars_of(s: &str) -> (v: Vec<char>)
    ensures
        v@ == s@,
{
    let mut v: Vec<char> = Vec::new();
    for c in it: s.chars()
        invariant
            v@ == it.seq().take(it.index() as int),
            it.seq() == s@,
    {
        v.push(c);
    }
    v
}

/// `p` occurs in `s` at position `i`.
pub open spec fn occurs_at(s: Seq<char>, p: Seq<char>, i: int) -> bool {
    0 <= i && i + p.len() <= s.len() && s.subrange(i, i + p.len()) == p
}

/// The first position `i` with `from <= i` and `i + p.len() <= to` at which
/// `p` occurs in `s`, if any (none when `to` lies past the end of `s`).
pub open spec fn find_in(s: Seq<char>, p: Seq<char>, from: int, to: int) -> Option<int>
    decreases to - from + 1,
{
    if from < 0 || from + p.len() > to || to > s.len() {
        None
    } else if occurs_at(s, p, from) {
        Some(from)
    } else {
        find_in(s, p, from + 1, to)
    }
}

/// What `find_in` finds lies in the range and is an occurrence, and nothing
/// before it in the range is one.
pub proof fn lemma_find_in(s: Seq<char>, p: Seq<char>, from: int, to: int)
    ensures
        find_in(s, p, from, to) matches Some(i) ==> from <= i && i + p.len() <= to && to <= s.len()
            && occurs_at(s, p, i),
    decreases to - from + 1,
{
    if !(from < 0 || from + p.len() > to || to > s.len()) && !occurs_at(s, p, from) {
        lemma_find_in(s, p, from + 1, to);
    }
}

/// The opening tag of an element named `tag`.
pub open spec fn open_tag(tag: Seq<char>) -> Seq<char> {
    seq!['<'] + tag + seq!['>']
}

/// The closing tag of an element named `tag`.
pub open spec fn close_tag(tag: Seq<char>) -> Seq<char> {
    seq!['<', '/'] + tag + seq!['>']
}

/// The content of the first element named `tag` in `s[from..to]`, as the
/// positions where it starts and ends: the first opening tag in the range,
/// up to the first closing tag after it.
pub open spec fn element_in(s: Seq<char>, tag: Seq<char>, from: int, to: int) -> Option<(int, int)> {
    match find_in(s, open_tag(tag), from, to) {
        None => None,
        Some(o) => match find_in(s, close_tag(tag), o + open_tag(tag).len(), to) {
            None => None,
            Some(c) => Some((o + open_tag(tag).len(), c)),
        },
    }
}

/// Where the element of `element_in` lies: its content, then its closing tag, in the range.
pub proof fn lemma_element_in(s: Seq<char>, tag: Seq<char>, from: int, to: int)
    ensures
        element_in(s, tag, from, to) matches Some((a, c)) ==> from < a <= c && c + close_tag(tag).len() <= to
            && to <= s.len(),
{
    lemma_find_in(s, open_tag(tag), from, to);
    if let Some(o) = find_in(s, open_tag(tag), from, to) {
        lemma_find_in(s, close_tag(tag), o + open_tag(tag).len(), to);
    }
}

/// The contents of the successive elements named `tag` in `s[from..to]`,
/// each searched for after the closing tag of the one before.
pub open spec fn elements_in(s: Seq<char>, tag: Seq<char>, from: int, to: int) -> Seq<(int, int)>
    decreases to - from,
{
    match element_in(s, tag, from, to) {
        None => Seq::empty(),
        Some((a, c)) => if from < c + close_tag(tag).len() <= to {
            seq![(a, c)] + elements_in(s, tag, c + close_tag(tag).len(), to)
        } else {
            Seq::empty()
        },
    }
}

/// The text of the element found by `element_in`, with entities read.
pub open spec fn element_text_in(s: Seq<char>, tag: Seq<char>, from: int, to: int) -> Option<Seq<char>> {
    match element_in(s, tag, from, to) {
        None => None,
        Some((a, c)) => Some(xml_unescape(s.subrange(a, c))),
    }
}

/// Decides `occurs_at`.
fn occurs_at_exec(s: &Vec<char>, p: &Vec<char>, i: usize) -> (b: bool)
    ensures
        b == occurs_at(s@, p@, i as int),
{
    let n = s.len();
    let m = p.len();
    if i > n || m > n - i {
        return false;
    }
    let mut j: usize = 0;
    while j < m
        invariant
            m == p@.len(),
            n == s@.len(),
            i + m <= n,
            j <= m,
            forall|k: int| 0 <= k < j ==> s@[i + k] == p@[k],
        decreases m - j,
    {
        if s[i + j] != p[j] {
            proof {
                assert(s@.subrange(i as int, i + m)[j as int] != p@[j as int]);
            }
            return false;
        }
        j += 1;
    }
    proof {
        assert(s@.subrange(i as int, i + m) =~= p@);
    }
    true
}

/// Computes `find_in`.
pub(crate) fn find_in_exec(s: &Vec<char>, p: &Vec<char>, from: usize, to: usize) -> (r: Option<usize>)
    requires
        p@.len() > 0,
    ensures
        r matches Some(i) ==> find_in(s@, p@, from as int, to as int) == Some(i as int),
        r is None ==> find_in(s@, p@, from as int, to as int) is None,
{
    let n = s.len();
    let m = p.len();
    if to > n {
        return None;
    }
    let mut i: usize = from;
    while m <= to && i <= to - m
        invariant
            n == s@.len(),
            m == p@.len(),
            m > 0,
            to <= n,
            from <= i,
            find_in(s@, p@, from as int, to as int) == find_in(s@, p@, i as int, to as int),
        decreases to - i,
    {
        if occurs_at_exec(s, p, i) {
            return Some(i);
        }
        i += 1;
    }
    None
}

/// The characters of `tag` between `before` and `after`.
pub(crate) fn tag_chars(before: &str, tag: &str, after: char) -> (v: Vec<char>)
    ensures
        v@ == before@ + tag@ + seq![after],
{
    let mut v = chars_of(before);
    let mut t = chars_of(tag);
    v.append(&mut t);
    v.push(after);
    v
}

/// Computes `element_in`.
fn element_in_exec(s: &Vec<char>, tag: &str, from: usize, to: usize) -> (r: Option<(usize, usize)>)
    ensures
        r matches Some((a, c)) ==> element_in(s@, tag@, from as int, to as int) == Some((a as int, c as int)),
        r is None ==> element_in(s@, tag@, from as int, to as int) is None,
{
    let open = tag_chars("<", tag, '>');
    let close = tag_chars("</", tag, '>');
    proof {
        reveal_strlit("<");
        reveal_strlit("</");
        assert(open@ =~= open_tag(tag@));
        assert(close@ =~= close_tag(tag@));
        lemma_find_in(s@, open_tag(tag@), from as int, to as int);
    }
    match find_in_exec(s, &open, from, to) {
        None => None,
        Some(o) => {
            let a = o + open.len();
            match find_in_exec(s, &close, a, to) {
                None => None,
                Some(c) => Some((a, c)),
            }
        },
    }
}

/// Appends the text of `s[a..c]` with entities read.
fn push_unescaped(out: &mut String, s: &Vec<char>, a: usize, c: usize)
    requires
        a <= c <= s@.len(),
    ensures
        final(out)@ == old(out)@ + xml_unescape(s@.subrange(a as int, c as int)),
{
    let mut i: usize = a;
    while i < c
        invariant
            a <= i <= c <= s@.len(),
            out@ + xml_unescape(s@.subrange(i as int, c as int)) == old(out)@ + xml_unescape(
                s@.subrange(a as int, c as int),
            ),
        decreases c - i,
    {
        proof {
            reveal_strlit("&amp;");
            reveal_strlit("&lt;");
            reveal_strlit("&gt;");
            reveal_strlit("&quot;");
            reveal_strlit("&apos;");
            reveal_strlit("&");
            reveal_strlit("<");
            reveal_strlit(">");
            reveal_strlit("\"");
            reveal_strlit("'");
        }
        let ghost t = s@.subrange(i as int, c as int);
        let ghost before = out@;
        let left = c - i;
        let amp = s[i] == '&';
        let step: usize;
        if amp && left >= 5 && s[i + 1] == 'a' && s[i + 2] == 'm' && s[i + 3] == 'p' && s[i + 4] == ';' {
            out.append("&");
            step = 5;
            proof {
                assert(t.take(5) =~= "&amp;"@);
            }
        } else if amp && left >= 4 && s[i + 1] == 'l' && s[i + 2] == 't' && s[i + 3] == ';' {
            out.append("<");
            step = 4;
            proof {
                assert(t.take(4) =~= "&lt;"@);
                assert(t.len() >= 5 ==> t.take(5)[1] != "&amp;"@[1]);
            }
        } else if amp && left >= 4 && s[i + 1] == 'g' && s[i + 2] == 't' && s[i + 3] == ';' {
            out.append(">");
            step = 4;
            proof {
                assert(t.take(4) =~= "&gt;"@);
                assert(t.len() >= 5 ==> t.take(5)[1] != "&amp;"@[1]);
                assert(t.take(4)[1] != "&lt;"@[1]);
            }
        } else if amp && left >= 6 && s[i + 1] == 'q' && s[i + 2] == 'u' && s[i + 3] == 'o'
            && s[i + 4] == 't' && s[i + 5] == ';' {
            out.append("\"");
            step = 6;
            proof {
                assert(t.take(6) =~= "&quot;"@);
                assert(t.take(5)[1] != "&amp;"@[1]);
                assert(t.take(4)[1] != "&lt;"@[1]);
                assert(t.take(4)[1] != "&gt;"@[1]);
            }
        } else if amp && left >= 6 && s[i + 1] == 'a' && s[i + 2] == 'p' && s[i + 3] == 'o'
            && s[i + 4] == 's' && s[i + 5] == ';' {
            out.append("'");
            step = 6;
            proof {
                assert(t.take(6) =~= "&apos;"@);
                assert(t.take(5)[2] != "&amp;"@[2]);
                assert(t.take(4)[1] != "&lt;"@[1]);
                assert(t.take(4)[1] != "&gt;"@[1]);
                assert(t.take(6)[1] != "&quot;"@[1]);
            }
        } else {
            push_char(out, s[i]);
            step = 1;
            proof {
                if t.len() >= 5 && t.take(5) == "&amp;"@ {
                    assert(t.take(5)[0] == s@[i as int]);
                    assert(t.take(5)[1] == s@[i + 1]);
                    assert(t.take(5)[2] == s@[i + 2]);
                    assert(t.take(5)[3] == s@[i + 3]);
                    assert(t.take(5)[4] == s@[i + 4]);
                }
                if t.len() >= 4 && t.take(4) == "&lt;"@ {
                    assert(t.take(4)[0] == s@[i as int]);
                    assert(t.take(4)[1] == s@[i + 1]);
                    assert(t.take(4)[2] == s@[i + 2]);
                    assert(t.take(4)[3] == s@[i + 3]);
                }
                if t.len() >= 4 && t.take(4) == "&gt;"@ {
                    assert(t.take(4)[0] == s@[i as int]);
                    assert(t.take(4)[1] == s@[i + 1]);
                    assert(t.take(4)[2] == s@[i + 2]);
                    assert(t.take(4)[3] == s@[i + 3]);
                }
                if t.len() >= 6 && t.take(6) == "&quot;"@ {
                    assert(t.take(6)[0] == s@[i as int]);
                    assert(t.take(6)[1] == s@[i + 1]);
                    assert(t.take(6)[2] == s@[i + 2]);
                    assert(t.take(6)[3] == s@[i + 3]);
                    assert(t.take(6)[4] == s@[i + 4]);
                    assert(t.take(6)[5] == s@[i + 5]);
                }
                if t.len() >= 6 && t.take(6) == "&apos;"@ {
                    assert(t.take(6)[0] == s@[i as int]);
                    assert(t.take(6)[1] == s@[i + 1]);
                    assert(t.take(6)[2] == s@[i + 2]);
                    assert(t.take(6)[3] == s@[i + 3]);
                    assert(t.take(6)[4] == s@[i + 4]);
                    assert(t.take(6)[5] == s@[i + 5]);
                }
            }
        }
        proof {
            assert(t.skip(step as int) =~= s@.subrange(i + step, c as int));
            assert(out@ =~= before + (out@.skip(before.len() as int)));
        }
        i += step;
    }
}

/// Computes `element_text_in`.
pub(crate) fn element_text_exec(s: &Vec<char>, tag: &str, from: usize, to: usize) -> (r: Option<String>)
    ensures
        opt_text(r) == element_text_in(s@, tag@, from as int, to as int),
{
    proof {
        lemma_element_in(s@, tag@, from as int, to as int);
    }
    match element_in_exec(s, tag, from, to) {
        None => None,
        Some((a, c)) => {
            let mut out = String::new();
            push_unescaped(&mut out, s, a, c);
            proof {
                assert(out@ =~= xml_unescape(s@.subrange(a as int, c as int)));
            }
            Some(out)
        },
    }
}

/// Positions as integers.
pub open spec fn int_ranges(v: Seq<(usize, usize)>) -> Seq<(int, int)> {
    Seq::new(v.len(), |i: int| (v[i].0 as int, v[i].1 as int))
}

/// Computes `elements_in`.
pub(crate) fn elements_in_exec(s: &Vec<char>, tag: &str, from: usize, to: usize) -> (r: Vec<(usize, usize)>)
    ensures
        int_ranges(r@) == elements_in(s@, tag@, from as int, to as int),
        forall|i: int| 0 <= i < r@.len() ==> r@[i].0 <= #[trigger] r@[i].1 <= s@.len(),
{
    let mut r: Vec<(usize, usize)> = Vec::new();
    let mut pos: usize = from;
    while pos < to
        invariant
            int_ranges(r@) + elements_in(s@, tag@, pos as int, to as int) == elements_in(
                s@,
                tag@,
                from as int,
                to as int,
            ),
            forall|i: int| 0 <= i < r@.len() ==> r@[i].0 <= #[trigger] r@[i].1 <= s@.len(),
        decreases to - pos,
    {
        proof {
            lemma_element_in(s@, tag@, pos as int, to as int);
        }
        match element_in_exec(s, tag, pos, to) {
            None => {
                proof {
                    assert(int_ranges(r@) + elements_in(s@, tag@, pos as int, to as int) =~= int_ranges(r@));
                }
                return r;
            },
            Some((a, c)) => {
                let ghost before = r@;
                r.push((a, c));
                let next = c + (tag.unicode_len() + 3);
                proof {
                    assert(close_tag(tag@).len() == tag@.len() + 3);
                    assert(int_ranges(r@) =~= int_ranges(before) + seq![(a as int, c as int)]);
                    assert(elements_in(s@, tag@, pos as int, to as int) == seq![(a as int, c as int)]
                        + elements_in(s@, tag@, next as int, to as int));
                }
                pos = next;
            },
        }
    }
    proof {
        assert(element_in(s@, tag@, pos as int, to as int) is None) by {
            lemma_element_in(s@, tag@, pos as int, to as int);
        }
        assert(int_ranges(r@) + elements_in(s@, tag@, pos as int, to as int) =~= int_ranges(r@));
    }
    r
}

/// A blank between pieces of XML markup.
pub open spec fn is_xml_space(c: char) -> bool {
    c == ' ' || c == '\t' || c == '\n' || c == '\r'
}

/// The first position at or after `i` that does not hold a blank.
pub open spec fn skip_space(s: Seq<char>, i: int) -> int
    decreases s.len() - i,
{
    if 0 <= i < s.len() && is_xml_space(s[i]) {
        skip_space(s, i + 1)
    } else {
        i
    }
}

/// Where a document's root element starts: after leading blanks and, when
/// the document opens with `<?`, after the declaration up to `?>` and the
/// blanks that follow it.
pub open spec fn root_start(s: Seq<char>) -> int {
    let i = skip_space(s, 0);
    if occurs_at(s, seq!['<', '?'], i) {
        match find_in(s, seq!['?', '>'], i + 2, s.len() as int) {
            Some(e) => skip_space(s, e + 2),
            None => i,
        }
    } else {
        i
    }
}

/// The root element of `s` is named `name`: at `root_start`, `<` and the
/// name, followed by `>`, by `/` of an empty element, or by a blank before
/// attributes.
pub open spec fn has_root(s: Seq<char>, name: Seq<char>) -> bool {
    let r = root_start(s);
    &&& occurs_at(s, seq!['<'] + name, r)
    &&& r + name.len() + 1 < s.len()
    &&& (s[r + name.len() + 1] == '>' || s[r + name.len() + 1] == '/' || is_xml_space(s[r + name.len() + 1]))
}

/// Computes `skip_space`.
fn skip_space_exec(s: &Vec<char>, i: usize) -> (r: usize)
    ensures
        r as int == skip_space(s@, i as int),
{
    let n = s.len();
    let mut j = i;
    while j < n && (s[j] == ' ' || s[j] == '\t' || s[j] == '\n' || s[j] == '\r')
        invariant
            n == s@.len(),
            i <= j,
            skip_space(s@, i as int) == skip_space(s@, j as int),
        decreases n - j,
    {
        j += 1;
    }
    j
}

/// Computes `root_start`.
fn root_start_exec(s: &Vec<char>) -> (r: usize)
    ensures
        r as int == root_start(s@),
{
    let i = skip_space_exec(s, 0);
    let n = s.len();
    if i < n && n - i >= 2 && s[i] == '<' && s[i + 1] == '?' {
        proof {
            assert(s@.subrange(i as int, i + 2) =~= seq!['<', '?']);
        }
        let close = vec!['?', '>'];
        match find_in_exec(s, &close, i + 2, n) {
            Some(e) => {
                proof {
                    lemma_find_in(s@, seq!['?', '>'], i + 2, n as int);
                    assert(close@ =~= seq!['?', '>']);
                }
                skip_space_exec(s, e + 2)
            },
            None => {
                proof {
                    assert(close@ =~= seq!['?', '>']);
                }
                i
            },
        }
    } else {
        proof {
            if occurs_at(s@, seq!['<', '?'], i as int) {
                assert(s@.subrange(i as int, i + 2)[0] == s@[i as int]);
                assert(s@.subrange(i as int, i + 2)[1] == s@[i + 1]);
            }
        }
        i
    }
}

/// Decides `has_root`.
pub(crate) fn has_root_exec(s: &Vec<char>, name: &str) -> (b: bool)
    ensures
        b == has_root(s@, name@),
{
    let r = root_start_exec(s);
    let m = name.unicode_len();
    proof {
        reveal_strlit("<");
    }
    let n = s.len();
    if r > n || m > n - r || n - r - m < 2 {
        return false;
    }
    let mut head = chars_of("<");
    let mut t = chars_of(name);
    head.append(&mut t);
    proof {
        assert(head@ =~= seq!['<'] + name@);
    }
    if !occurs_at_exec(s, &head, r) {
        return false;
    }
    let c = s[r + m + 1];
    c == '>' || c == '/' || c == ' ' || c == '\t' || c == '\n' || c == '\r'
}

/// The service's answer is an S3 error document: its root element is `Error`.
pub open spec fn is_error_document(s: Seq<char>) -> bool {
    has_root(s, "Error"@)
}

/// `e` is the service error that an error document `s` stands for: the
/// status of the response, the texts of its first `Code` and `Message`
/// elements, and the request id that the response carried.
pub open spec fn is_service_error(e: Error, status: u16, s: Seq<char>, request_id: Option<Seq<char>>) -> bool {
    match e {
        Error::Api { status: st, code, message, request_id: id } => {
            &&& st == status
            &&& opt_text(code) == element_text_in(s, "Code"@, 0, s.len() as int)
            &&& opt_text(message) == element_text_in(s, "Message"@, 0, s.len() as int)
            &&& opt_text(id) == request_id
        },
        _ => false,
    }
}

/// The request id as text.
pub open spec fn opt_str(o: Option<&str>) -> Option<Seq<char>> {
    match o {
        Some(t) => Some(t@),
        None => None,
    }
}

/// The service error that `body` holds, if it is an error document.
pub fn service_error(status: u16, request_id: Option<&str>, body: &str) -> (r: Option<Error>)
    ensures
        r is Some <==> is_error_document(body@),
        r matches Some(e) ==> is_service_error(e, status, body@, opt_str(request_id)),
{
    let s = chars_of(body);
    if !has_root_exec(&s, "Error") {
        return None;
    }
    let n = s.len();
    let code = element_text_exec(&s, "Code", 0, n);
    let message = element_text_exec(&s, "Message", 0, n);
    let id = match request_id {
        Some(t) => Some(String::from_str(t)),
        None => None,
    };
    Some(Error::Api { status, code, message, request_id: id })
}

/// What reading a successful response gives: the decoded value when
/// decoding succeeded; otherwise the service error when the body is an
/// error document, else the decoding error.
pub open spec fn decoded_or_service_error<T>(
    r: Result<T, Error>,
    parsed: Result<T, Error>,
    status: u16,
    body: Seq<char>,
    request_id: Option<Seq<char>>,
) -> bool {
    match parsed {
        Ok(v) => r == Ok::<T, Error>(v),
        Err(d) => if is_error_document(body) {
            r matches Err(e) && is_service_error(e, status, body, request_id)
        } else {
            r == Err::<T, Error>(d)
        },
    }
}

/// Keeps a decoded value; where decoding failed, reports the service error
/// that the body holds, or else the decoding error.
pub fn parse_xml_or_service_error<T>(
    status: u16,
    request_id: Option<&str>,
    body: &str,
    parsed: Result<T, Error>,
) -> (r: Result<T, Error>)
    ensures
        decoded_or_service_error(r, parsed, status, body@, opt_str(request_id)),
{
    match parsed {
        Ok(v) => Ok(v),
        Err(d) => match service_error(status, request_id, body) {
            Some(e) => Err(e),
            None => Err(d),
        },
    }
}

/// The text of the first element named `tag` anywhere in `s`.
pub open spec fn doc_text(s: Seq<char>, tag: Seq<char>) -> Option<Seq<char>> {
    element_text_in(s, tag, 0, s.len() as int)
}

/// A whole-number field in `s[from..to]`: `Some(None)` where the element is
/// absent, `Some(Some(n))` where its text is the number `n`, and `None`
/// where its text is not a number.
pub open spec fn number_in(s: Seq<char>, tag: Seq<char>, from: int, to: int) -> Option<Option<u64>> {
    match element_text_in(s, tag, from, to) {
        None => Some(None),
        Some(t) => match u64_text_value(t) {
            Some(v) => Some(Some(v)),
            None => None,
        },
    }
}

/// A flag field in `s[from..to]`: set where the element's text is `true`.
pub open spec fn flag_in(s: Seq<char>, tag: Seq<char>, from: int, to: int) -> bool {
    element_text_in(s, tag, from, to) == Some("true"@)
}

/// Computes `number_in`, giving `None` for a text that is not a number.
pub(crate) fn number_exec(s: &Vec<char>, tag: &str, from: usize, to: usize) -> (r: Option<Option<u64>>)
    ensures
        r == number_in(s@, tag@, from as int, to as int),
{
    match element_text_exec(s, tag, from, to) {
        None => Some(None),
        Some(t) => match parse_u64_text(t.as_str()) {
            Some(v) => Some(Some(v)),
            None => None,
        },
    }
}

/// Decides whether two texts are equal.
pub(crate) fn same_text(a: &str, b: &str) -> (r: bool)
    ensures
        r == (a@ == b@),
{
    let x = chars_of(a);
    let y = chars_of(b);
    if x.len() != y.len() {
        return false;
    }
    let mut i: usize = 0;
    while i < x.len()
        invariant
            x@ == a@,
            y@ == b@,
            x@.len() == y@.len(),
            i <= x@.len(),
            forall|j: int| 0 <= j < i ==> x@[j] == y@[j],
        decreases x.len() - i,
    {
        if x[i] != y[i] {
            return false;
        }
        i += 1;
    }
    proof {
        assert(x@ =~= y@);
    }
    true
}

/// Computes `flag_in`.
pub(crate) fn flag_exec(s: &Vec<char>, tag: &str, from: usize, to: usize) -> (r: bool)
    ensures
        r == flag_in(s@, tag@, from as int, to as int),
{
    match element_text_exec(s, tag, from, to) {
        None => false,
        Some(t) => same_text(t.as_str(), "true"),
    }
}

/// `find_in` gives the first occurrence in its range.
pub proof fn lemma_find_in_first(s: Seq<char>, p: Seq<char>, from: int, to: int, k: int)
    requires
        0 <= from <= k,
        k + p.len() <= to <= s.len(),
        occurs_at(s, p, k),
        forall|i: int| from <= i < k ==> !occurs_at(s, p, i),
    ensures
        find_in(s, p, from, to) == Some(k),
    decreases k - from,
{
    if from < k {
        lemma_find_in_first(s, p, from + 1, to, k);
    }
}

/// An element written with escaped text is read back as that text: what a
/// request body says of a key or an ETag, a response that says the same
/// gives back unchanged.
pub proof fn law_escaped_element_reads_back(tag: Seq<char>, text: Seq<char>)
    ensures
        ({
            let doc = open_tag(tag) + xml_escape(text) + close_tag(tag);
            element_text_in(doc, tag, 0, doc.len() as int) == Some(text)
        }),
{
    let e = xml_escape(text);
    let o = open_tag(tag);
    let c = close_tag(tag);
    let doc = o + e + c;
    let a = o.len() as int;
    let k = a + e.len();
    law_escaped_text_has_no_angle_brackets(text);
    law_xml_escape_round_trip(text);
    assert(doc.subrange(0, a) =~= o);
    lemma_find_in_first(doc, o, 0, doc.len() as int, 0);
    assert(doc.subrange(k, k + c.len()) =~= c);
    assert forall|i: int| a <= i < k implies !occurs_at(doc, c, i) by {
        assert(doc[i] == e[i - a]);
        if occurs_at(doc, c, i) {
            assert(doc.subrange(i, i + c.len())[0] == doc[i]);
        }
    }
    lemma_find_in_first(doc, c, a, doc.len() as int, k);
    assert(doc.subrange(a, k) =~= e);
}

/// `find_in` finds nothing where nothing occurs in its range.
pub proof fn lemma_find_in_none(s: Seq<char>, p: Seq<char>, from: int, to: int)
    requires
        forall|i: int| from <= i ==> !occurs_at(s, p, i),
    ensures
        find_in(s, p, from, to) is None,
    decreases to - from + 1,
{
    if !(from < 0 || from + p.len() > to || to > s.len()) {
        lemma_find_in_none(s, p, from + 1, to);
    }
}

/// Every `<` in `x` is followed, inside `x`, by a character other than `c`.
pub open spec fn lt_never_before(x: Seq<char>, c: char) -> bool {
    forall|i: int| 0 <= i < x.len() && #[trigger] x[i] == '<' ==> i + 1 < x.len() && x[i + 1] != c
}

/// Joining texts in which no `<` is followed by `c` gives such a text.
pub proof fn lemma_lt_never_before_concat(x: Seq<char>, y: Seq<char>, c: char)
    requires
        lt_never_before(x, c),
        lt_never_before(y, c),
    ensures
        lt_never_before(x + y, c),
{
    let z = x + y;
    assert forall|i: int| 0 <= i < z.len() && #[trigger] z[i] == '<' implies i + 1 < z.len() && z[i + 1] != c by {
        if i < x.len() {
            assert(z[i] == x[i]);
            assert(z[i + 1] == x[i + 1]);
        } else {
            assert(z[i] == y[i - x.len()]);
            assert(z[i + 1] == y[i + 1 - x.len()]);
        }
    }
}

/// Escaped text holds no `<` at all.
pub proof fn lemma_escaped_lt_never_before(text: Seq<char>, c: char)
    ensures
        lt_never_before(xml_escape(text), c),
{
    law_escaped_text_has_no_angle_brackets(text);
}

/// In a text where no `<` is followed by the first character of `tag`, no
/// element named `tag` is found.
pub proof fn lemma_no_element(s: Seq<char>, tag: Seq<char>, from: int, to: int)
    requires
        tag.len() > 0,
        lt_never_before(s, tag[0]),
    ensures
        element_text_in(s, tag, from, to) is None,
{
    let o = open_tag(tag);
    assert forall|i: int| from <= i implies !occurs_at(s, o, i) by {
        if occurs_at(s, o, i) {
            assert(s.subrange(i, i + o.len())[0] == s[i]);
            assert(s.subrange(i, i + o.len())[1] == s[i + 1]);
        }
    }
    lemma_find_in_none(s, o, from, to);
}

} // verus!
