use vstd::prelude::*;
use crate::error::{Error, is_config_error};
use crate::text::{
    decimal, is_digit, is_header_char, lemma_decimal_digits, eq_ignore_case, eq_ignore_case_exec, is_header_text, is_header_value, lower,
    push_decimal, push_lower,
};
use crate::validate::{
    checked, is_metadata_key, validate_header_value, validate_metadata_key,
    validate_metadata_value,
};

verus! {

/// A list of header (or query) name/value pairs, as texts.
pub type Pairs = Seq<(Seq<char>, Seq<char>)>;

/// The text of an optional string.
pub open spec fn opt_text(o: Option<String>) -> Option<Seq<char>> {
    match o {
        Some(s) => Some(s@),
        None => None,
    }
}

/// The pair `(name, value)` when a value is present, else nothing.
pub open spec fn opt_pair(name: Seq<char>, value: Option<Seq<char>>) -> Pairs {
    match value {
        Some(v) => seq![(name, v)],
        None => Seq::empty(),
    }
}

/// Copies an optional string.
pub fn clone_opt(o: &Option<String>) -> (r: Option<String>)
    ensures
        opt_text(r) == opt_text(*o),
{
    match o {
        Some(s) => Some(s.clone()),
        None => None,
    }
}

/// Appends the pair `(name, value)`.
pub fn push_pair(list: &mut Vec<(String, String)>, name: &str, value: String)
    ensures
        final(list).deep_view() == old(list).deep_view().push((name@, value@)),
{
    list.push((String::from_str(name), value));
    proof {
        assert(list.deep_view() =~= old(list).deep_view().push((name@, value@)));
    }
}

/// Appends the pair `(name, value)` when `value` is present.
pub fn push_opt_pair(list: &mut Vec<(String, String)>, name: &str, value: &Option<String>)
    ensures
        final(list).deep_view() == old(list).deep_view() + opt_pair(name@, opt_text(*value)),
{
    match value {
        Some(v) => {
            push_pair(list, name, v.clone());
            proof {
                assert(list.deep_view() =~= old(list).deep_view() + opt_pair(name@, opt_text(*value)));
            }
        },
        None => {
            proof {
                assert(list.deep_view() =~= old(list).deep_view() + opt_pair(name@, opt_text(*value)));
            }
        },
    }
}

/// Every value of `p` is a header value.
pub open spec fn all_header_values(p: Pairs) -> bool {
    forall|i: int| 0 <= i < p.len() ==> is_header_text(#[trigger] p[i].1)
}

/// Joining two lists of header values gives a list of header values.
pub proof fn lemma_header_values_concat(a: Pairs, b: Pairs)
    requires
        all_header_values(a),
        all_header_values(b),
    ensures
        all_header_values(a + b),
{
    assert forall|i: int| 0 <= i < (a + b).len() implies is_header_text(#[trigger] (a + b)[i].1) by {
        if i >= a.len() {
            assert((a + b)[i] == b[i - a.len()]);
        }
    }
}

/// An optional pair whose value is absent or a header value.
pub proof fn lemma_opt_pair_header(name: Seq<char>, value: Option<Seq<char>>)
    requires
        opt_is_header_value(value),
    ensures
        all_header_values(opt_pair(name, value)),
{
}

// ---------------------------------------------------------------- metadata

/// Well-formed user metadata: token keys, header-text values, and no two keys
/// equal up to ASCII case.
pub open spec fn metadata_ok(m: Pairs) -> bool {
    &&& forall|i: int| 0 <= i < m.len() ==> is_metadata_key(#[trigger] m[i].0)
    &&& forall|i: int| 0 <= i < m.len() ==> is_header_text(#[trigger] m[i].1)
    &&& forall|i: int, j: int| 0 <= i < j < m.len() ==> !eq_ignore_case(#[trigger] m[i].0, #[trigger] m[j].0)
}

/// Some key of `m` equals `key` up to ASCII case.
pub open spec fn key_taken(m: Pairs, key: Seq<char>) -> bool {
    exists|i: int| 0 <= i < m.len() && eq_ignore_case(#[trigger] m[i].0, key)
}

/// The message of the first rule that `(key, value)` breaks when added to `m`.
pub open spec fn metadata_error(key: Seq<char>, value: Seq<char>) -> Seq<char> {
    if !is_metadata_key(key) {
        "invalid metadata key"@
    } else if !is_header_text(value) {
        "invalid metadata value"@
    } else {
        "metadata keys must be unique (case-insensitive)"@
    }
}

/// The entry `(key, value)` may be added to `m`.
pub open spec fn metadata_accepts(m: Pairs, key: Seq<char>, value: Seq<char>) -> bool {
    is_metadata_key(key) && is_header_text(value) && !key_taken(m, key)
}

/// The header carrying metadata entry `key`: `x-amz-meta-` and the key in lower case.
pub open spec fn metadata_header_name(key: Seq<char>) -> Seq<char> {
    "x-amz-meta-"@ + lower(key)
}

/// The headers that carry the metadata `m`, in order.
pub open spec fn metadata_headers(m: Pairs) -> Pairs {
    Seq::new(m.len(), |i: int| (metadata_header_name(m[i].0), m[i].1))
}

/// User metadata of an object, kept well-formed.
pub struct Metadata {
    entries: Vec<(String, String)>,
}

impl View for Metadata {
    type V = Pairs;

    closed spec fn view(&self) -> Pairs {
        self.entries.deep_view()
    }
}

impl Metadata {
    #[verifier::type_invariant]
    spec fn inv(self) -> bool {
        metadata_ok(self.entries.deep_view())
    }

    /// No entries.
    pub fn new() -> (r: Metadata)
        ensures
            r@ == Seq::<(Seq<char>, Seq<char>)>::empty(),
    {
        let r = Metadata { entries: Vec::new() };
        proof {
            assert(r.entries.deep_view() =~= Seq::<(Seq<char>, Seq<char>)>::empty());
        }
        r
    }

    /// Number of entries.
    pub fn len(&self) -> (n: usize)
        ensures
            n == self@.len(),
    {
        self.entries.len()
    }

    /// Adds an entry, unless its key is not a token, its value is not header
    /// text, or its key equals an existing key up to ASCII case.
    pub fn push(&mut self, key: &str, value: &str) -> (r: Result<(), Error>)
        ensures
            checked(r, metadata_accepts(old(self)@, key@, value@), metadata_error(key@, value@)),
            r is Ok ==> final(self)@ == old(self)@.push((key@, value@)),
            r is Err ==> final(self)@ == old(self)@,
            metadata_ok(final(self)@),
    {
        proof {
            use_type_invariant(&*self);
        }
        validate_metadata_key(key)?;
        validate_metadata_value(value)?;
        let n = self.entries.len();
        let mut i: usize = 0;
        while i < n
            invariant
                n == self.entries.len(),
                i <= n,
                self@ == old(self)@,
                metadata_ok(self@),
                is_metadata_key(key@),
                is_header_text(value@),
                forall|j: int| 0 <= j < i ==> !eq_ignore_case(#[trigger] self@[j].0, key@),
            decreases n - i,
        {
            if eq_ignore_case_exec(self.entries[i].0.as_str(), key) {
                proof {
                    assert(self@[i as int].0 == self.entries[i as int].0@);
                    assert(key_taken(self@, key@));
                }
                return Err(Error::invalid_config("metadata keys must be unique (case-insensitive)"));
            }
            proof {
                assert(self@[i as int].0 == self.entries[i as int].0@);
            }
            i += 1;
        }
        let ghost before = self@;
        let mut entries: Vec<(String, String)> = Vec::new();
        proof {
            assert(entries.deep_view() =~= Seq::<(Seq<char>, Seq<char>)>::empty());
        }
        std::mem::swap(&mut entries, &mut self.entries);
        entries.push((String::from_str(key), String::from_str(value)));
        proof {
            assert(entries.deep_view() =~= before.push((key@, value@)));
            assert(forall|j: int| 0 <= j < before.len() ==> !eq_ignore_case(#[trigger] before[j].0, key@));
            assert(metadata_ok(entries.deep_view())) by {
                assert forall|a: int, b: int| 0 <= a < b < entries.deep_view().len() implies !eq_ignore_case(
                    #[trigger] entries.deep_view()[a].0,
                    #[trigger] entries.deep_view()[b].0,
                ) by {
                    if b == before.len() {
                        assert(!eq_ignore_case(before[a].0, key@));
                    }
                }
            }
        }
        self.entries = entries;
        proof {
            assert(self@ =~= before.push((key@, value@)));
        }
        Ok(())
    }

    /// Appends the headers that carry the entries to `headers`.
    pub fn push_headers(&self, headers: &mut Vec<(String, String)>)
        ensures
            final(headers).deep_view() == old(headers).deep_view() + metadata_headers(self@),
            all_header_values(metadata_headers(self@)),
    {
        proof {
            use_type_invariant(self);
        }
        let n = self.entries.len();
        let mut i: usize = 0;
        while i < n
            invariant
                n == self.entries.len(),
                n == self@.len(),
                i <= n,
                headers.deep_view() == old(headers).deep_view() + metadata_headers(
                    self@,
                ).take(i as int),
            decreases n - i,
        {
            let mut name = String::from_str("x-amz-meta-");
            push_lower(&mut name, self.entries[i].0.as_str());
            let value = self.entries[i].1.clone();
            let ghost before = headers.deep_view();
            headers.push((name, value));
            proof {
                assert(self@[i as int] == (self.entries[i as int].0@, self.entries[i as int].1@));
                assert(metadata_headers(self@).take(i + 1) =~= metadata_headers(self@).take(
                    i as int,
                ).push(metadata_headers(self@)[i as int]));
                assert(headers.deep_view() =~= before.push(metadata_headers(self@)[i as int]));
            }
            i += 1;
        }
        proof {
            assert(metadata_headers(self@).take(n as int) =~= metadata_headers(self@));
        }
    }
}

// ---------------------------------------------------------------- validated texts

/// A string that is a header value (`is_header_value`).
pub struct HeaderText {
    text: String,
}

impl View for HeaderText {
    type V = Seq<char>;

    closed spec fn view(&self) -> Seq<char> {
        self.text@
    }
}

impl HeaderText {
    #[verifier::type_invariant]
    spec fn inv(self) -> bool {
        is_header_value(self.text@)
    }

    /// Accepts `value` when it is a header value; otherwise fails with `message`.
    pub fn new(value: &str, message: &str) -> (r: Result<HeaderText, Error>)
        ensures
            r is Ok <==> is_header_value(value@),
            r matches Ok(t) ==> t@ == value@,
            r matches Err(e) ==> is_config_error(e, message@),
    {
        validate_header_value(value, message)?;
        Ok(HeaderText { text: String::from_str(value) })
    }

    /// The text, which is a header value.
    pub fn as_str(&self) -> (s: &str)
        ensures
            s@ == self@,
            is_header_value(s@),
    {
        proof {
            use_type_invariant(self);
        }
        self.text.as_str()
    }

    /// A copy of the text.
    pub fn to_string(&self) -> (s: String)
        ensures
            s@ == self@,
            is_header_value(s@),
    {
        proof {
            use_type_invariant(self);
        }
        self.text.clone()
    }
}

/// The text of an optional validated header value.
pub open spec fn opt_header_text(o: Option<HeaderText>) -> Option<Seq<char>> {
    match o {
        Some(t) => Some(t@),
        None => None,
    }
}

/// The optional value is absent or a header value.
pub open spec fn opt_is_header_value(o: Option<Seq<char>>) -> bool {
    match o {
        Some(t) => is_header_value(t),
        None => true,
    }
}

/// Appends `(name, value)` when the validated value is present.
pub fn push_opt_header(list: &mut Vec<(String, String)>, name: &str, value: &Option<HeaderText>)
    ensures
        final(list).deep_view() == old(list).deep_view() + opt_pair(name@, opt_header_text(*value)),
        opt_is_header_value(opt_header_text(*value)),
{
    match value {
        Some(v) => {
            push_pair(list, name, v.to_string());
            proof {
                assert(list.deep_view() =~= old(list).deep_view() + opt_pair(name@, opt_header_text(*value)));
            }
        },
        None => {
            proof {
                assert(list.deep_view() =~= old(list).deep_view() + opt_pair(name@, opt_header_text(*value)));
            }
        },
    }
}

// ---------------------------------------------------------------- byte ranges

/// The `Range` header text for an inclusive byte range.
pub open spec fn range_text(start: u64, end: u64) -> Seq<char> {
    "bytes="@ + decimal(start as nat) + "-"@ + decimal(end as nat)
}

/// A range header text is a header value.
pub proof fn law_range_text_is_header_value(start: u64, end: u64)
    ensures
        is_header_value(range_text(start, end)),
{
    reveal_strlit("bytes=");
    reveal_strlit("-");
    lemma_decimal_digits(start as nat);
    lemma_decimal_digits(end as nat);
    let a = "bytes="@;
    let d1 = decimal(start as nat);
    let b = "-"@;
    let d2 = decimal(end as nat);
    let t = range_text(start, end);
    assert(t =~= a + d1 + b + d2);
    assert forall|i: int| 0 <= i < t.len() implies is_header_char(#[trigger] t[i]) by {
        if i < a.len() {
        } else if i < a.len() + d1.len() {
            assert(is_digit(d1[i - a.len()]));
        } else if i < a.len() + d1.len() + b.len() {
        } else {
            assert(is_digit(d2[i - a.len() - d1.len() - b.len()]));
        }
    }
    assert(is_digit(d2[d2.len() - 1]));
}

/// An inclusive byte range whose start does not exceed its end.
pub struct ByteRange {
    start: u64,
    end: u64,
}

impl View for ByteRange {
    type V = (u64, u64);

    closed spec fn view(&self) -> (u64, u64) {
        (self.start, self.end)
    }
}

impl ByteRange {
    #[verifier::type_invariant]
    spec fn inv(self) -> bool {
        self.start <= self.end
    }

    /// The range from `start` to `end_inclusive`; rejected when `start` exceeds it.
    pub fn new(start: u64, end_inclusive: u64) -> (r: Result<ByteRange, Error>)
        ensures
            r is Ok <==> start <= end_inclusive,
            r matches Ok(b) ==> b@ == (start, end_inclusive),
            r matches Err(e) ==> is_config_error(e, "invalid byte range: start must not exceed end"@),
    {
        if start > end_inclusive {
            return Err(Error::invalid_config("invalid byte range: start must not exceed end"));
        }
        Ok(ByteRange { start, end: end_inclusive })
    }

    /// The `Range` header value, such as `bytes=0-99`.
    pub fn header_value(&self) -> (s: String)
        ensures
            s@ == range_text(self@.0, self@.1),
            self@.0 <= self@.1,
    {
        proof {
            use_type_invariant(self);
        }
        let mut s = String::from_str("bytes=");
        push_decimal(&mut s, self.start);
        s.append("-");
        push_decimal(&mut s, self.end);
        s
    }
}

/// The optional range rendered as a header text.
pub open spec fn opt_range_text(o: Option<(u64, u64)>) -> Option<Seq<char>> {
    match o {
        Some(r) => Some(range_text(r.0, r.1)),
        None => None,
    }
}

/// The view of an optional range.
pub open spec fn opt_range(o: Option<ByteRange>) -> Option<(u64, u64)> {
    match o {
        Some(r) => Some(r@),
        None => None,
    }
}

/// Appends `(name, range text)` when a range is present.
pub fn push_opt_range(list: &mut Vec<(String, String)>, name: &str, range: &Option<ByteRange>)
    ensures
        final(list).deep_view() == old(list).deep_view() + opt_pair(name@, opt_range_text(opt_range(*range))),
{
    match range {
        Some(r) => {
            push_pair(list, name, r.header_value());
        },
        None => {},
    }
    proof {
        assert(list.deep_view() =~= old(list).deep_view() + opt_pair(name@, opt_range_text(opt_range(*range))));
    }
}

// ---------------------------------------------------------------- conditions

/// `If-Match` / `If-None-Match` conditions of a read.
pub struct ObjectConditions {
    if_match: Option<HeaderText>,
    if_none_match: Option<HeaderText>,
}

impl View for ObjectConditions {
    type V = (Option<Seq<char>>, Option<Seq<char>>);

    closed spec fn view(&self) -> (Option<Seq<char>>, Option<Seq<char>>) {
        (opt_header_text(self.if_match), opt_header_text(self.if_none_match))
    }
}

/// The headers that carry conditions `c`.
pub open spec fn condition_headers(c: (Option<Seq<char>>, Option<Seq<char>>)) -> Pairs {
    opt_pair("if-match"@, c.0) + opt_pair("if-none-match"@, c.1)
}

impl ObjectConditions {
    /// No conditions.
    pub fn new() -> (r: ObjectConditions)
        ensures
            r@ == (None::<Seq<char>>, None::<Seq<char>>),
    {
        ObjectConditions { if_match: None, if_none_match: None }
    }

    /// Sets the `If-Match` condition.
    pub fn set_if_match(&mut self, value: &str) -> (r: Result<(), Error>)
        ensures
            checked(r, is_header_value(value@), "invalid If-Match header"@),
            r is Ok ==> final(self)@ == (Some(value@), old(self)@.1),
            r is Err ==> final(self)@ == old(self)@,
    {
        let t = HeaderText::new(value, "invalid If-Match header")?;
        self.if_match = Some(t);
        Ok(())
    }

    /// Sets the `If-None-Match` condition.
    pub fn set_if_none_match(&mut self, value: &str) -> (r: Result<(), Error>)
        ensures
            checked(r, is_header_value(value@), "invalid If-None-Match header"@),
            r is Ok ==> final(self)@ == (old(self)@.0, Some(value@)),
            r is Err ==> final(self)@ == old(self)@,
    {
        let t = HeaderText::new(value, "invalid If-None-Match header")?;
        self.if_none_match = Some(t);
        Ok(())
    }

    /// Appends the condition headers.
    pub fn push_headers(&self, list: &mut Vec<(String, String)>)
        ensures
            final(list).deep_view() == old(list).deep_view() + condition_headers(self@),
            opt_is_header_value(self@.0),
            opt_is_header_value(self@.1),
    {
        push_opt_header(list, "if-match", &self.if_match);
        push_opt_header(list, "if-none-match", &self.if_none_match);
        proof {
            assert(list.deep_view() =~= old(list).deep_view() + condition_headers(self@));
        }
    }
}

// ---------------------------------------------------------------- upload headers

/// The headers that an upload may set.
pub struct PutHeadersModel {
    pub content_type: Option<Seq<char>>,
    pub cache_control: Option<Seq<char>>,
    pub content_disposition: Option<Seq<char>>,
    pub content_encoding: Option<Seq<char>>,
    pub content_language: Option<Seq<char>>,
    pub expires: Option<Seq<char>>,
    pub if_match: Option<Seq<char>>,
    pub if_none_match: Option<Seq<char>>,
    pub metadata: Pairs,
}

/// The upload headers in the order they are sent.
pub open spec fn put_header_pairs(m: PutHeadersModel) -> Pairs {
    opt_pair("content-type"@, m.content_type) + opt_pair("cache-control"@, m.cache_control)
        + opt_pair("content-disposition"@, m.content_disposition) + opt_pair(
        "content-encoding"@,
        m.content_encoding,
    ) + opt_pair("content-language"@, m.content_language) + opt_pair("expires"@, m.expires)
        + opt_pair("if-match"@, m.if_match) + opt_pair("if-none-match"@, m.if_none_match)
        + metadata_headers(m.metadata)
}

/// Headers of an upload, each validated when set.
pub struct PutObjectHeaders {
    content_type: Option<HeaderText>,
    cache_control: Option<HeaderText>,
    content_disposition: Option<HeaderText>,
    content_encoding: Option<HeaderText>,
    content_language: Option<HeaderText>,
    expires: Option<HeaderText>,
    if_match: Option<HeaderText>,
    if_none_match: Option<HeaderText>,
    metadata: Metadata,
}

impl View for PutObjectHeaders {
    type V = PutHeadersModel;

    closed spec fn view(&self) -> PutHeadersModel {
        PutHeadersModel {
            content_type: opt_header_text(self.content_type),
            cache_control: opt_header_text(self.cache_control),
            content_disposition: opt_header_text(self.content_disposition),
            content_encoding: opt_header_text(self.content_encoding),
            content_language: opt_header_text(self.content_language),
            expires: opt_header_text(self.expires),
            if_match: opt_header_text(self.if_match),
            if_none_match: opt_header_text(self.if_none_match),
            metadata: self.metadata@,
        }
    }
}

/// No upload headers.
pub open spec fn empty_put_headers() -> PutHeadersModel {
    PutHeadersModel {
        content_type: None,
        cache_control: None,
        content_disposition: None,
        content_encoding: None,
        content_language: None,
        expires: None,
        if_match: None,
        if_none_match: None,
        metadata: Seq::empty(),
    }
}

impl PutObjectHeaders {
    /// No headers.
    pub fn new() -> (r: PutObjectHeaders)
        ensures
            r@ == empty_put_headers(),
    {
        PutObjectHeaders {
            content_type: None,
            cache_control: None,
            content_disposition: None,
            content_encoding: None,
            content_language: None,
            expires: None,
            if_match: None,
            if_none_match: None,
            metadata: Metadata::new(),
        }
    }

    /// Sets `Content-Type`.
    pub fn content_type(&mut self, value: &str) -> (r: Result<(), Error>)
        ensures
            checked(r, is_header_value(value@), "invalid Content-Type header"@),
            r is Ok ==> final(self)@ == (PutHeadersModel { content_type: Some(value@), ..old(self)@ }),
            r is Err ==> final(self)@ == old(self)@,
    {
        let t = HeaderText::new(value, "invalid Content-Type header")?;
        self.content_type = Some(t);
        Ok(())
    }

    /// Sets `Cache-Control`.
    pub fn cache_control(&mut self, value: &str) -> (r: Result<(), Error>)
        ensures
            checked(r, is_header_value(value@), "invalid Cache-Control header"@),
            r is Ok ==> final(self)@ == (PutHeadersModel { cache_control: Some(value@), ..old(self)@ }),
            r is Err ==> final(self)@ == old(self)@,
    {
        let t = HeaderText::new(value, "invalid Cache-Control header")?;
        self.cache_control = Some(t);
        Ok(())
    }

    /// Sets `Content-Disposition`.
    pub fn content_disposition(&mut self, value: &str) -> (r: Result<(), Error>)
        ensures
            checked(r, is_header_value(value@), "invalid Content-Disposition header"@),
            r is Ok ==> final(self)@ == (PutHeadersModel { content_disposition: Some(value@), ..old(self)@ }),
            r is Err ==> final(self)@ == old(self)@,
    {
        let t = HeaderText::new(value, "invalid Content-Disposition header")?;
        self.content_disposition = Some(t);
        Ok(())
    }

    /// Sets `Content-Encoding`.
    pub fn content_encoding(&mut self, value: &str) -> (r: Result<(), Error>)
        ensures
            checked(r, is_header_value(value@), "invalid Content-Encoding header"@),
            r is Ok ==> final(self)@ == (PutHeadersModel { content_encoding: Some(value@), ..old(self)@ }),
            r is Err ==> final(self)@ == old(self)@,
    {
        let t = HeaderText::new(value, "invalid Content-Encoding header")?;
        self.content_encoding = Some(t);
        Ok(())
    }

    /// Sets `Content-Language`.
    pub fn content_language(&mut self, value: &str) -> (r: Result<(), Error>)
        ensures
            checked(r, is_header_value(value@), "invalid Content-Language header"@),
            r is Ok ==> final(self)@ == (PutHeadersModel { content_language: Some(value@), ..old(self)@ }),
            r is Err ==> final(self)@ == old(self)@,
    {
        let t = HeaderText::new(value, "invalid Content-Language header")?;
        self.content_language = Some(t);
        Ok(())
    }

    /// Sets `Expires`.
    pub fn expires(&mut self, value: &str) -> (r: Result<(), Error>)
        ensures
            checked(r, is_header_value(value@), "invalid Expires header"@),
            r is Ok ==> final(self)@ == (PutHeadersModel { expires: Some(value@), ..old(self)@ }),
            r is Err ==> final(self)@ == old(self)@,
    {
        let t = HeaderText::new(value, "invalid Expires header")?;
        self.expires = Some(t);
        Ok(())
    }

    /// Sets `If-Match`.
    pub fn if_match(&mut self, value: &str) -> (r: Result<(), Error>)
        ensures
            checked(r, is_header_value(value@), "invalid If-Match header"@),
            r is Ok ==> final(self)@ == (PutHeadersModel { if_match: Some(value@), ..old(self)@ }),
            r is Err ==> final(self)@ == old(self)@,
    {
        let t = HeaderText::new(value, "invalid If-Match header")?;
        self.if_match = Some(t);
        Ok(())
    }

    /// Sets `If-None-Match` (`*` asks for a create-if-absent write).
    pub fn if_none_match(&mut self, value: &str) -> (r: Result<(), Error>)
        ensures
            checked(r, is_header_value(value@), "invalid If-None-Match header"@),
            r is Ok ==> final(self)@ == (PutHeadersModel { if_none_match: Some(value@), ..old(self)@ }),
            r is Err ==> final(self)@ == old(self)@,
    {
        let t = HeaderText::new(value, "invalid If-None-Match header")?;
        self.if_none_match = Some(t);
        Ok(())
    }

    /// Adds a user metadata entry.
    pub fn metadata(&mut self, key: &str, value: &str) -> (r: Result<(), Error>)
        ensures
            checked(r, metadata_accepts(old(self)@.metadata, key@, value@), metadata_error(key@, value@)),
            r is Ok ==> final(self)@ == (PutHeadersModel {
                metadata: old(self)@.metadata.push((key@, value@)),
                ..old(self)@
            }),
            r is Err ==> final(self)@ == old(self)@,
            metadata_ok(final(self)@.metadata),
    {
        self.metadata.push(key, value)
    }

    /// The headers, in the order of `put_header_pairs`.
    pub fn to_pairs(&self) -> (list: Vec<(String, String)>)
        ensures
            list.deep_view() == put_header_pairs(self@),
            all_header_values(list.deep_view()),
    {
        let mut list: Vec<(String, String)> = Vec::new();
        proof {
            assert(list.deep_view() =~= Seq::<(Seq<char>, Seq<char>)>::empty());
        }
        push_opt_header(&mut list, "content-type", &self.content_type);
        push_opt_header(&mut list, "cache-control", &self.cache_control);
        push_opt_header(&mut list, "content-disposition", &self.content_disposition);
        push_opt_header(&mut list, "content-encoding", &self.content_encoding);
        push_opt_header(&mut list, "content-language", &self.content_language);
        push_opt_header(&mut list, "expires", &self.expires);
        push_opt_header(&mut list, "if-match", &self.if_match);
        push_opt_header(&mut list, "if-none-match", &self.if_none_match);
        self.metadata.push_headers(&mut list);
        proof {
            assert(list.deep_view() =~= put_header_pairs(self@));
            let m = self@;
            lemma_opt_pair_header("content-type"@, m.content_type);
            lemma_opt_pair_header("cache-control"@, m.cache_control);
            lemma_opt_pair_header("content-disposition"@, m.content_disposition);
            lemma_opt_pair_header("content-encoding"@, m.content_encoding);
            lemma_opt_pair_header("content-language"@, m.content_language);
            lemma_opt_pair_header("expires"@, m.expires);
            lemma_opt_pair_header("if-match"@, m.if_match);
            lemma_opt_pair_header("if-none-match"@, m.if_none_match);
            assert(all_header_values(list.deep_view()));
        }
        list
    }
}

// ---------------------------------------------------------------- checksums

/// The checksum algorithms an upload may declare.
#[derive(Clone, Copy, Debug, PartialEq, Eq, Structural)]
pub enum ChecksumAlgorithm {
    Crc32,
    Crc32c,
    Sha1,
    Sha256,
}

/// The header that carries a checksum of the given algorithm.
pub open spec fn checksum_header_name(a: ChecksumAlgorithm) -> Seq<char> {
    match a {
        ChecksumAlgorithm::Crc32 => "x-amz-checksum-crc32"@,
        ChecksumAlgorithm::Crc32c => "x-amz-checksum-crc32c"@,
        ChecksumAlgorithm::Sha1 => "x-amz-checksum-sha1"@,
        ChecksumAlgorithm::Sha256 => "x-amz-checksum-sha256"@,
    }
}

/// A checksum sent with an upload: its algorithm and encoded value.
pub struct Checksum {
    algorithm: ChecksumAlgorithm,
    value: HeaderText,
}

impl View for Checksum {
    type V = (ChecksumAlgorithm, Seq<char>);

    closed spec fn view(&self) -> (ChecksumAlgorithm, Seq<char>) {
        (self.algorithm, self.value@)
    }
}

impl Checksum {
    /// A checksum whose encoded `value` must be a header value.
    pub fn new(algorithm: ChecksumAlgorithm, value: &str) -> (r: Result<Checksum, Error>)
        ensures
            r is Ok <==> is_header_value(value@),
            r matches Ok(c) ==> c@ == (algorithm, value@),
            r matches Err(e) ==> is_config_error(e, "invalid checksum value"@),
    {
        let value = HeaderText::new(value, "invalid checksum value")?;
        Ok(Checksum { algorithm, value })
    }

    /// Appends the checksum header.
    pub fn push_header(&self, list: &mut Vec<(String, String)>)
        ensures
            final(list).deep_view() == old(list).deep_view().push(
                (checksum_header_name(self@.0), self@.1),
            ),
            is_header_value(self@.1),
    {
        let name = match self.algorithm {
            ChecksumAlgorithm::Crc32 => "x-amz-checksum-crc32",
            ChecksumAlgorithm::Crc32c => "x-amz-checksum-crc32c",
            ChecksumAlgorithm::Sha1 => "x-amz-checksum-sha1",
            ChecksumAlgorithm::Sha256 => "x-amz-checksum-sha256",
        };
        let v = self.value.to_string();
        push_pair(list, name, v);
    }
}

/// The optional checksum header.
pub open spec fn opt_checksum_headers(c: Option<(ChecksumAlgorithm, Seq<char>)>) -> Pairs {
    match c {
        Some(c) => seq![(checksum_header_name(c.0), c.1)],
        None => Seq::empty(),
    }
}

// ---------------------------------------------------------------- bodies

/// The message for a declared length that differs from the body.
pub open spec fn length_mismatch_message(operation: Seq<char>) -> Seq<char> {
    operation + " content_length does not match body length"@
}

/// Rejects a declared content length that differs from the body's length.
pub fn validate_content_length_matches_body(
    content_length: Option<u64>,
    body_len: usize,
    operation: &str,
) -> (r: Result<(), Error>)
    ensures
        checked(
            r,
            match content_length {
                Some(n) => n == body_len,
                None => true,
            },
            length_mismatch_message(operation@),
        ),
{
    match content_length {
        Some(n) => {
            if n != body_len as u64 {
                let message = String::from_str(operation).concat(
                    " content_length does not match body length",
                );
                return Err(Error::InvalidConfig { message });
            }
        },
        None => {},
    }
    Ok(())
}

} // verus!
