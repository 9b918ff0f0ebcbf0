use vstd::prelude::*;
use crate::text::push_char;

verus! {

/// The XML text for one character: markup characters become entities.
pub open spec fn escape_char(c: char) -> Seq<char> {
    if c == '&' {
        "&amp;"@
    } else if c == '<' {
        "&lt;"@
    } else if c == '>' {
        "&gt;"@
    } else if c == '"' {
        "&quot;"@
    } else if c == '\'' {
        "&apos;"@
    } else {
        seq![c]
    }
}

/// The XML text for `s`, escaped character by character.
pub open spec fn xml_escape(s: Seq<char>) -> Seq<char>
    decreases s.len(),
{
    if s.len() == 0 {
        Seq::empty()
    } else {
        escape_char(s[0]) + xml_escape(s.skip(1))
    }
}

/// Escaping a text with one more character appends that character's escape.
pub proof fn lemma_escape_push(s: Seq<char>, c: char)
    ensures
        xml_escape(s.push(c)) == xml_escape(s) + escape_char(c),
    decreases s.len(),
{
    if s.len() == 0 {
        assert(s.push(c).skip(1) =~= Seq::<char>::empty());
        assert(xml_escape(Seq::<char>::empty()) == Seq::<char>::empty());
        assert(s.push(c)[0] == c);
        assert(xml_escape(s.push(c)) == escape_char(c) + xml_escape(s.push(c).skip(1)));
        assert(xml_escape(s) == Seq::<char>::empty());
        assert(xml_escape(s.push(c)) =~= xml_escape(s) + escape_char(c));
    } else {
        lemma_escape_push(s.skip(1), c);
        assert(s.push(c).skip(1) =~= s.skip(1).push(c));
        assert(s.push(c)[0] == s[0]);
        assert(xml_escape(s.push(c)) =~= xml_escape(s) + escape_char(c));
    }
}

/// Escaped text holds no `<` or `>`, so it can never open or close an element.
pub proof fn law_escaped_text_has_no_angle_brackets(s: Seq<char>)
    ensures
        forall|i: int| 0 <= i < xml_escape(s).len() ==> #[trigger] xml_escape(s)[i] != '<' && xml_escape(s)[i] != '>',
    decreases s.len(),
{
    reveal_strlit("&amp;");
    reveal_strlit("&lt;");
    reveal_strlit("&gt;");
    reveal_strlit("&quot;");
    reveal_strlit("&apos;");
    if s.len() > 0 {
        law_escaped_text_has_no_angle_brackets(s.skip(1));
        let a = escape_char(s[0]);
        let b = xml_escape(s.skip(1));
        assert(xml_escape(s) == a + b);
        assert forall|i: int| 0 <= i < xml_escape(s).len() implies #[trigger] xml_escape(s)[i] != '<'
            && xml_escape(s)[i] != '>' by {
            if i >= a.len() {
                assert(xml_escape(s)[i] == b[i - a.len()]);
            } else {
                assert(xml_escape(s)[i] == a[i]);
            }
        }
    }
}

/// The text that an XML reader gives for escaped text: each of the five
/// entities becomes its character, any other character stands for itself.
pub open spec fn xml_unescape(t: Seq<char>) -> Seq<char>
    decreases t.len(),
{
    if t.len() == 0 {
        Seq::empty()
    } else if t.len() >= 5 && t.take(5) == "&amp;"@ {
        seq!['&'] + xml_unescape(t.skip(5))
    } else if t.len() >= 4 && t.take(4) == "&lt;"@ {
        seq!['<'] + xml_unescape(t.skip(4))
    } else if t.len() >= 4 && t.take(4) == "&gt;"@ {
        seq!['>'] + xml_unescape(t.skip(4))
    } else if t.len() >= 6 && t.take(6) == "&quot;"@ {
        seq!['"'] + xml_unescape(t.skip(6))
    } else if t.len() >= 6 && t.take(6) == "&apos;"@ {
        seq!['\''] + xml_unescape(t.skip(6))
    } else {
        seq![t[0]] + xml_unescape(t.skip(1))
    }
}

/// Reading escaped text gives back the text: a key or an ETag written into
/// an XML body is read as exactly that key or ETag.
pub proof fn law_xml_escape_round_trip(s: Seq<char>)
    ensures
        xml_unescape(xml_escape(s)) == s,
    decreases s.len(),
{
    reveal_strlit("&amp;");
    reveal_strlit("&lt;");
    reveal_strlit("&gt;");
    reveal_strlit("&quot;");
    reveal_strlit("&apos;");
    if s.len() > 0 {
        law_xml_escape_round_trip(s.skip(1));
        let c = s[0];
        let e = escape_char(c);
        let rest = xml_escape(s.skip(1));
        let t = xml_escape(s);
        assert(t == e + rest);
        let k = e.len() as int;
        assert(t.take(k) =~= e);
        assert(t.skip(k) =~= rest);
        if c != '&' && c != '<' && c != '>' && c != '"' && c != '\'' {
            assert(t[0] == c);
            assert(t.len() >= 5 ==> t.take(5)[0] != "&amp;"@[0]);
            assert(t.len() >= 4 ==> t.take(4)[0] != "&lt;"@[0]);
            assert(t.len() >= 4 ==> t.take(4)[0] != "&gt;"@[0]);
            assert(t.len() >= 6 ==> t.take(6)[0] != "&quot;"@[0]);
            assert(t.len() >= 6 ==> t.take(6)[0] != "&apos;"@[0]);
        } else if c == '<' {
            assert(t.len() >= 5 ==> t.take(5)[1] != "&amp;"@[1]);
        } else if c == '>' {
            assert(t.len() >= 5 ==> t.take(5)[1] != "&amp;"@[1]);
            assert(t.take(4)[1] != "&lt;"@[1]);
        } else if c == '"' {
            assert(e == "&quot;"@);
            assert(t[1] == e[1]);
            assert(t.take(5)[1] != "&amp;"@[1]);
            assert(t.take(4)[1] != "&lt;"@[1]);
            assert(t.take(4)[1] != "&gt;"@[1]);
        } else if c == '\'' {
            assert(e == "&apos;"@);
            assert(t[1] == e[1]);
            assert(t[2] == e[2]);
            assert(t.take(5)[2] != "&amp;"@[2]);
            assert(t.take(4)[1] != "&lt;"@[1]);
            assert(t.take(4)[1] != "&gt;"@[1]);
            assert(t.take(6)[1] != "&quot;"@[1]);
        }
        assert(xml_unescape(t) =~= s);
    }
}

/// Appends the XML escaping of `s` to `out`.
pub fn push_escaped(out: &mut String, s: &str)
    ensures
        final(out)@ == old(out)@ + xml_escape(s@),
{
    let n = s.unicode_len();
    let mut i: usize = 0;
    while i < n
        invariant
            n == s@.len(),
            i <= n,
            out@ == old(out)@ + xml_escape(s@.take(i as int)),
        decreases n - i,
    {
        let c = s.get_char(i);
        let ghost before = out@;
        if c == '&' {
            out.append("&amp;");
        } else if c == '<' {
            out.append("&lt;");
        } else if c == '>' {
            out.append("&gt;");
        } else if c == '"' {
            out.append("&quot;");
        } else if c == '\'' {
            out.append("&apos;");
        } else {
            push_char(out, c);
        }
        proof {
            assert(out@ =~= before + escape_char(c));
            assert(s@.take(i + 1) =~= s@.take(i as int).push(c));
            lemma_escape_push(s@.take(i as int), c);
            assert(out@ =~= old(out)@ + xml_escape(s@.take(i + 1)));
        }
        i += 1;
    }
    proof {
        assert(s@.take(n as int) =~= s@);
    }
}

} // verus!
