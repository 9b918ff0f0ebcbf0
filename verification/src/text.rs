use vstd::prelude::*;
use vstd::string::StringSliceAdditionalSpecFns;

verus! {

/// Appends `c` to `s` with `String::push`, which std documents as appending
/// the given char to the end of the string.
#[verifier::external_body]
pub(crate) fn push_char(s: &mut String, c: char)
    ensures
        final(s)@ == old(s)@.push(c),
{
    s.push(c);
}

/// The decimal digit character for `d` (below ten).
pub open spec fn digit_char(d: int) -> char {
    (48 + d) as char
}

/// The decimal rendering of `n`, without leading zeros.
pub open spec fn decimal(n: nat) -> Seq<char>
    decreases n,
{
    if n < 10 {
        seq![digit_char(n as int)]
    } else {
        decimal(n / 10).push(digit_char((n % 10) as int))
    }
}

/// A decimal digit character.
pub open spec fn is_digit(c: char) -> bool {
    '0' <= c && c <= '9'
}

/// The decimal rendering is a non-empty run of digits.
pub proof fn lemma_decimal_digits(n: nat)
    ensures
        decimal(n).len() > 0,
        forall|i: int| 0 <= i < decimal(n).len() ==> is_digit(#[trigger] decimal(n)[i]),
    decreases n,
{
    if n >= 10 {
        lemma_decimal_digits(n / 10);
    }
}

/// The number that a run of decimal digits denotes.
pub open spec fn parse_decimal(s: Seq<char>) -> int
    decreases s.len(),
{
    if s.len() == 0 {
        0
    } else {
        parse_decimal(s.drop_last()) * 10 + (s.last() as int - 48)
    }
}

/// Reading a rendered number gives the number back: part numbers, limits
/// and byte offsets are sent exactly.
pub proof fn law_decimal_round_trip(n: nat)
    ensures
        parse_decimal(decimal(n)) == n,
    decreases n,
{
    let d = decimal(n);
    if n >= 10 {
        law_decimal_round_trip(n / 10);
        assert(d.drop_last() =~= decimal(n / 10));
        assert(d.last() == digit_char((n % 10) as int));
        assert(digit_char((n % 10) as int) as int == 48 + n % 10);
        assert(parse_decimal(d) == parse_decimal(decimal(n / 10)) * 10 + (n % 10));
        assert((n / 10) * 10 + n % 10 == n);
    } else {
        assert(d.drop_last() =~= Seq::<char>::empty());
        assert(d.last() == digit_char(n as int));
        assert(digit_char(n as int) as int == 48 + n);
        assert(parse_decimal(d) == parse_decimal(d.drop_last()) * 10 + (d.last() as int - 48));
    }
}

/// Appends the decimal rendering of `n` to `s`.
pub fn push_decimal(s: &mut String, n: u64)
    ensures
        final(s)@ == old(s)@ + decimal(n as nat),
    decreases n,
{
    if n >= 10 {
        push_decimal(s, n / 10);
    }
    let d: u8 = (n % 10) as u8;
    let c = (48u8 + d) as char;
    push_char(s, c);
    proof {
        assert(old(s)@ + decimal(n as nat) =~= final(s)@);
    }
}

/// The digits of an unsigned number's text: the text without one leading `+`.
pub open spec fn unsigned_digits(s: Seq<char>) -> Seq<char> {
    if s.len() > 0 && s[0] == '+' {
        s.subrange(1, s.len() as int)
    } else {
        s
    }
}

/// A non-empty run of decimal digits.
pub open spec fn is_digit_run(s: Seq<char>) -> bool {
    s.len() > 0 && forall|i: int| 0 <= i < s.len() ==> is_digit(#[trigger] s[i])
}

/// The `u64` that a text denotes, if any: an optional `+`, then decimal
/// digits (leading zeros allowed) whose value fits in 64 bits.
pub open spec fn u64_text_value(s: Seq<char>) -> Option<u64> {
    let d = unsigned_digits(s);
    if is_digit_run(d) && parse_decimal(d) <= u64::MAX {
        Some(parse_decimal(d) as u64)
    } else {
        None
    }
}

/// A run of digits denotes at least what any of its prefixes denotes, and
/// nothing negative.
proof fn lemma_parse_decimal_prefix(s: Seq<char>, k: int)
    requires
        0 <= k <= s.len(),
        forall|i: int| 0 <= i < s.len() ==> is_digit(#[trigger] s[i]),
    ensures
        0 <= parse_decimal(s.take(k)) <= parse_decimal(s),
    decreases s.len(),
{
    if s.len() > 0 {
        let t = s.drop_last();
        assert(is_digit(s[s.len() - 1]));
        if k == s.len() {
            assert(s.take(k) =~= s);
            lemma_parse_decimal_prefix(t, t.len() as int);
            assert(t.take(t.len() as int) =~= t);
        } else {
            lemma_parse_decimal_prefix(t, k);
            lemma_parse_decimal_prefix(t, t.len() as int);
            assert(t.take(k) =~= s.take(k));
            assert(t.take(t.len() as int) =~= t);
        }
    } else {
        assert(s.take(k) =~= s);
    }
}

/// Reads an unsigned number as `u64_text_value` says, such as the value of
/// a `Content-Length` header.
pub fn parse_u64_text(s: &str) -> (r: Option<u64>)
    ensures
        r == u64_text_value(s@),
{
    let n = s.unicode_len();
    let start: usize = if n > 0 && s.get_char(0) == '+' { 1 } else { 0 };
    let ghost d = unsigned_digits(s@);
    proof {
        assert(d =~= s@.subrange(start as int, n as int));
    }
    if start == n {
        return None;
    }
    let mut acc: u64 = 0;
    let mut i: usize = start;
    while i < n
        invariant
            n == s@.len(),
            d == s@.subrange(start as int, n as int),
            d == unsigned_digits(s@),
            start <= i <= n,
            forall|j: int| 0 <= j < i - start ==> is_digit(#[trigger] d[j]),
            acc as int == parse_decimal(d.take(i - start)),
        decreases n - i,
    {
        let c = s.get_char(i);
        if !('0' <= c && c <= '9') {
            proof {
                assert(!is_digit(d[i - start]));
            }
            return None;
        }
        let digit: u64 = (c as u32 - 48) as u64;
        proof {
            assert(d.take(i + 1 - start).drop_last() =~= d.take(i - start));
            assert(d.take(i + 1 - start).last() == c);
            assert(parse_decimal(d.take(i + 1 - start)) == acc * 10 + digit);
        }
        if acc > (u64::MAX - digit) / 10 {
            proof {
                assert(acc * 10 + digit > u64::MAX) by (nonlinear_arith)
                    requires acc > (u64::MAX - digit) / 10, digit <= 9;
                if is_digit_run(d) {
                    lemma_parse_decimal_prefix(d, i + 1 - start);
                }
            }
            return None;
        }
        proof {
            assert(acc * 10 + digit <= u64::MAX) by (nonlinear_arith)
                requires acc <= (u64::MAX - digit) / 10, digit <= 9;
        }
        acc = acc * 10 + digit;
        i += 1;
    }
    proof {
        assert(d.take(n - start) =~= d);
    }
    Some(acc)
}

/// A character that may stand in an HTTP header value: visible ASCII, space or tab.
pub open spec fn is_header_char(c: char) -> bool {
    (' ' <= c && c <= '~') || c == '\t'
}

/// Space or horizontal tab.
pub open spec fn is_blank(c: char) -> bool {
    c == ' ' || c == '\t'
}

/// Text that may be sent as a header value: header characters only, and no
/// blank at either end. The empty text qualifies.
pub open spec fn is_header_text(s: Seq<char>) -> bool {
    &&& forall|i: int| 0 <= i < s.len() ==> is_header_char(#[trigger] s[i])
    &&& s.len() > 0 ==> !is_blank(s[0]) && !is_blank(s[s.len() - 1])
}

/// A non-empty header text.
pub open spec fn is_header_value(s: Seq<char>) -> bool {
    s.len() > 0 && is_header_text(s)
}

/// An ASCII control character.
pub open spec fn is_control(c: char) -> bool {
    c < ' ' || c == '\x7f'
}

/// Text without control characters.
pub open spec fn has_no_controls(s: Seq<char>) -> bool {
    forall|i: int| 0 <= i < s.len() ==> !is_control(#[trigger] s[i])
}

pub fn is_header_char_exec(c: char) -> (b: bool)
    ensures
        b == is_header_char(c),
{
    (' ' <= c && c <= '~') || c == '\t'
}

/// Decides `is_header_text`.
pub fn check_header_text(s: &str) -> (b: bool)
    ensures
        b == is_header_text(s@),
{
    let n = s.unicode_len();
    let mut i: usize = 0;
    while i < n
        invariant
            n == s@.len(),
            i <= n,
            forall|j: int| 0 <= j < i ==> is_header_char(#[trigger] s@[j]),
        decreases n - i,
    {
        let c = s.get_char(i);
        if !is_header_char_exec(c) {
            return false;
        }
        i += 1;
    }
    if n > 0 {
        let first = s.get_char(0);
        let last = s.get_char(n - 1);
        if first == ' ' || first == '\t' || last == ' ' || last == '\t' {
            return false;
        }
    }
    true
}

/// Decides `has_no_controls`.
pub fn check_no_controls(s: &str) -> (b: bool)
    ensures
        b == has_no_controls(s@),
{
    let n = s.unicode_len();
    let mut i: usize = 0;
    while i < n
        invariant
            n == s@.len(),
            i <= n,
            forall|j: int| 0 <= j < i ==> !is_control(#[trigger] s@[j]),
        decreases n - i,
    {
        let c = s.get_char(i);
        if c < ' ' || c == '\x7f' {
            return false;
        }
        i += 1;
    }
    true
}


/// A path segment `.` or `..` begins at position `i` of `s`.
pub open spec fn is_dot_segment_at(s: Seq<char>, i: int) -> bool {
    &&& i == 0 || s[i - 1] == '/'
    &&& s[i] == '.'
    &&& {
        ||| i + 1 == s.len()
        ||| s[i + 1] == '/'
        ||| s[i + 1] == '.' && (i + 2 == s.len() || s[i + 2] == '/')
    }
}

/// Some segment of `s`, split at `/`, is `.` or `..`.
pub open spec fn has_dot_segment(s: Seq<char>) -> bool {
    exists|i: int| 0 <= i < s.len() && #[trigger] is_dot_segment_at(s, i)
}

/// An acceptable object key: one to 1024 bytes of UTF-8, no control
/// characters, and no `.` or `..` path segment.
pub open spec fn is_object_key(s: Seq<char>) -> bool {
    &&& s.len() > 0
    &&& vstd::utf8::encode_utf8(s).len() <= 1024
    &&& has_no_controls(s)
    &&& !has_dot_segment(s)
}

/// A character allowed in an HTTP header name (an RFC 9110 token character).
pub open spec fn is_token_char(c: char) -> bool {
    ||| 'a' <= c && c <= 'z'
    ||| 'A' <= c && c <= 'Z'
    ||| '0' <= c && c <= '9'
    ||| c == '!' || c == '#' || c == '$' || c == '%' || c == '&' || c == '\''
    ||| c == '*' || c == '+' || c == '-' || c == '.' || c == '^' || c == '_'
    ||| c == '`' || c == '|' || c == '~'
}

/// A non-empty run of token characters.
pub open spec fn is_token(s: Seq<char>) -> bool {
    &&& s.len() > 0
    &&& forall|i: int| 0 <= i < s.len() ==> is_token_char(#[trigger] s[i])
}

/// ASCII lower-casing of one character.
pub open spec fn lower_char(c: char) -> char {
    if 'A' <= c && c <= 'Z' {
        ((c as u8) + 32) as char
    } else {
        c
    }
}

/// ASCII lower-casing of a text.
pub open spec fn lower(s: Seq<char>) -> Seq<char> {
    Seq::new(s.len(), |i: int| lower_char(s[i]))
}

/// Equality of two texts up to ASCII case.
pub open spec fn eq_ignore_case(a: Seq<char>, b: Seq<char>) -> bool {
    lower(a) =~= lower(b)
}

pub fn lower_char_exec(c: char) -> (r: char)
    ensures
        r == lower_char(c),
{
    if 'A' <= c && c <= 'Z' {
        ((c as u8) + 32) as char
    } else {
        c
    }
}

pub fn is_token_char_exec(c: char) -> (b: bool)
    ensures
        b == is_token_char(c),
{
    ('a' <= c && c <= 'z') || ('A' <= c && c <= 'Z') || ('0' <= c && c <= '9') || c == '!'
        || c == '#' || c == '$' || c == '%' || c == '&' || c == '\'' || c == '*' || c == '+'
        || c == '-' || c == '.' || c == '^' || c == '_' || c == '`' || c == '|' || c == '~'
}

/// Decides `is_token`.
pub fn check_token(s: &str) -> (b: bool)
    ensures
        b == is_token(s@),
{
    let n = s.unicode_len();
    if n == 0 {
        return false;
    }
    let mut i: usize = 0;
    while i < n
        invariant
            n == s@.len(),
            i <= n,
            forall|j: int| 0 <= j < i ==> is_token_char(#[trigger] s@[j]),
        decreases n - i,
    {
        if !is_token_char_exec(s.get_char(i)) {
            return false;
        }
        i += 1;
    }
    true
}

/// Decides `eq_ignore_case`.
pub fn eq_ignore_case_exec(a: &str, b: &str) -> (r: bool)
    ensures
        r == eq_ignore_case(a@, b@),
{
    let n = a.unicode_len();
    let m = b.unicode_len();
    if n != m {
        proof {
            assert(lower(a@).len() != lower(b@).len());
        }
        return false;
    }
    let mut i: usize = 0;
    while i < n
        invariant
            n == a@.len(),
            n == b@.len(),
            i <= n,
            forall|j: int| 0 <= j < i ==> lower_char(#[trigger] a@[j]) == lower_char(b@[j]),
        decreases n - i,
    {
        if lower_char_exec(a.get_char(i)) != lower_char_exec(b.get_char(i)) {
            proof {
                assert(lower(a@)[i as int] != lower(b@)[i as int]);
            }
            return false;
        }
        i += 1;
    }
    proof {
        assert(lower(a@) =~= lower(b@));
    }
    true
}

/// Appends the ASCII lower-casing of `t` to `s`.
pub fn push_lower(s: &mut String, t: &str)
    ensures
        final(s)@ == old(s)@ + lower(t@),
{
    let n = t.unicode_len();
    let mut i: usize = 0;
    while i < n
        invariant
            n == t@.len(),
            i <= n,
            s@ == old(s)@ + lower(t@.take(i as int)),
        decreases n - i,
    {
        let c = lower_char_exec(t.get_char(i));
        push_char(s, c);
        proof {
            assert(lower(t@.take(i + 1)) =~= lower(t@.take(i as int)).push(lower_char(t@[i as int])));
            assert(s@ =~= old(s)@ + lower(t@.take(i + 1)));
        }
        i += 1;
    }
    proof {
        assert(t@.take(n as int) =~= t@);
    }
}

/// Decides whether a `.` or `..` segment begins at position `i`.
fn dot_segment_at_exec(s: &str, n: usize, i: usize) -> (b: bool)
    requires
        n == s@.len(),
        i < n,
    ensures
        b == is_dot_segment_at(s@, i as int),
{
    if i > 0 && s.get_char(i - 1) != '/' {
        return false;
    }
    if s.get_char(i) != '.' {
        return false;
    }
    if i + 1 == n {
        return true;
    }
    let next = s.get_char(i + 1);
    if next == '/' {
        return true;
    }
    if next != '.' {
        return false;
    }
    i + 2 == n || s.get_char(i + 2) == '/'
}

/// Decides `is_object_key`.
pub fn check_object_key(s: &str) -> (b: bool)
    ensures
        b == is_object_key(s@),
{
    let n = s.unicode_len();
    if n == 0 || s.as_bytes().len() > 1024 {
        return false;
    }
    if !check_no_controls(s) {
        return false;
    }
    let mut i: usize = 0;
    while i < n
        invariant
            n == s@.len(),
            i <= n,
            forall|j: int| 0 <= j < i ==> !is_dot_segment_at(s@, j),
        decreases n - i,
    {
        if dot_segment_at_exec(s, n, i) {
            return false;
        }
        i += 1;
    }
    proof {
        assert(s.spec_bytes() == vstd::utf8::encode_utf8(s@));
        assert(!has_dot_segment(s@));
    }
    true
}

} // verus!
