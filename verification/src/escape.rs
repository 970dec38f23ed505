//! Escaping of attribute values for a double-quoted HTML attribute context.
//!
//! Attribute values may carry the delimiter characters `&`, `<`, `>`, `"` and
//! `'`; each becomes its character entity, every other character stands for
//! itself. Template content is deliberately never escaped: it is trusted,
//! pre-rendered HTML.

use vstd::prelude::*;

verus! {

/// How one character of an attribute value is written inside a double-quoted
/// HTML attribute: the five delimiter characters become entities, every other
/// character stands for itself.
pub open spec fn escape_char(c: char) -> Seq<char> {
    if c == '&' {
        "&amp;"@
    } else if c == '<' {
        "&lt;"@
    } else if c == '>' {
        "&gt;"@
    } else if c == '"' {
        "&quot;"@
    } else if c == '\'' {
        "&#x27;"@
    } else {
        seq![c]
    }
}

/// A whole attribute value escaped character by character, left to right.
pub open spec fn escape_text(s: Seq<char>) -> Seq<char>
    decreases s.len(),
{
    if s.len() == 0 {
        Seq::empty()
    } else {
        escape_char(s[0]) + escape_text(s.drop_first())
    }
}

/// Escaping one more character on the right extends the escaped text on the
/// right.
pub proof fn lemma_escape_text_push(s: Seq<char>, c: char)
    ensures
        escape_text(s.push(c)) == escape_text(s) + escape_char(c),
    decreases s.len(),
{
    reveal_with_fuel(escape_text, 2);
    if s.len() == 0 {
        assert(s.push(c)[0] == c);
        assert(s.push(c).drop_first() =~= Seq::<char>::empty());
        assert(escape_text(s.push(c)) =~= escape_text(s) + escape_char(c));
    } else {
        lemma_escape_text_push(s.drop_first(), c);
        assert(s.push(c).drop_first() =~= s.drop_first().push(c));
        assert(escape_text(s.push(c)) =~= escape_text(s) + escape_char(c));
    }
}

/// An HTML parser's view of an escaped attribute value: the five character
/// entities decode to their characters, everything else stands for itself.
pub open spec fn unescape_text(t: Seq<char>) -> Seq<char>
    decreases t.len(),
{
    if t.len() == 0 {
        Seq::empty()
    } else if t.len() >= 5 && t.take(5) == "&amp;"@ {
        seq!['&'] + unescape_text(t.skip(5))
    } else if t.len() >= 4 && t.take(4) == "&lt;"@ {
        seq!['<'] + unescape_text(t.skip(4))
    } else if t.len() >= 4 && t.take(4) == "&gt;"@ {
        seq!['>'] + unescape_text(t.skip(4))
    } else if t.len() >= 6 && t.take(6) == "&quot;"@ {
        seq!['"'] + unescape_text(t.skip(6))
    } else if t.len() >= 6 && t.take(6) == "&#x27;"@ {
        seq!['\''] + unescape_text(t.skip(6))
    } else {
        seq![t[0]] + unescape_text(t.skip(1))
    }
}

/// Escaping round-trip: decoding an escaped attribute value yields back the
/// original string, whatever delimiter characters it held.
pub proof fn lemma_escape_round_trip(s: Seq<char>)
    ensures
        unescape_text(escape_text(s)) == s,
    decreases s.len(),
{
    reveal_strlit("&amp;");
    reveal_strlit("&lt;");
    reveal_strlit("&gt;");
    reveal_strlit("&quot;");
    reveal_strlit("&#x27;");
    if s.len() == 0 {
        assert(unescape_text(escape_text(s)) =~= s);
    } else {
        lemma_escape_round_trip(s.drop_first());
        let c = s[0];
        let e = escape_text(s);
        let t = escape_text(s.drop_first());
        assert(e == escape_char(c) + t);
        if c == '&' {
            assert(e.take(5) =~= "&amp;"@);
            assert(e.skip(5) =~= t);
            assert(seq!['&'] + s.drop_first() =~= s);
        } else if c == '<' {
            if e.len() >= 5 && e.take(5) == "&amp;"@ {
                assert(e.take(5)[1] == e[1] && e[1] == 'l');
                assert(false);
            }
            assert(e.take(4) =~= "&lt;"@);
            assert(e.skip(4) =~= t);
            assert(seq!['<'] + s.drop_first() =~= s);
        } else if c == '>' {
            if e.len() >= 5 && e.take(5) == "&amp;"@ {
                assert(e.take(5)[1] == e[1] && e[1] == 'g');
                assert(false);
            }
            if e.len() >= 4 && e.take(4) == "&lt;"@ {
                assert(e.take(4)[1] == e[1] && e[1] == 'g');
                assert(false);
            }
            assert(e.take(4) =~= "&gt;"@);
            assert(e.skip(4) =~= t);
            assert(seq!['>'] + s.drop_first() =~= s);
        } else if c == '"' {
            if e.len() >= 5 && e.take(5) == "&amp;"@ {
                assert(e.take(5)[1] == e[1] && e[1] == 'q');
                assert(false);
            }
            if e.len() >= 4 && e.take(4) == "&lt;"@ {
                assert(e.take(4)[1] == e[1] && e[1] == 'q');
                assert(false);
            }
            if e.len() >= 4 && e.take(4) == "&gt;"@ {
                assert(e.take(4)[1] == e[1] && e[1] == 'q');
                assert(false);
            }
            assert(e.take(6) =~= "&quot;"@);
            assert(e.skip(6) =~= t);
            assert(seq!['"'] + s.drop_first() =~= s);
        } else if c == '\'' {
            if e.len() >= 5 && e.take(5) == "&amp;"@ {
                assert(e.take(5)[1] == e[1] && e[1] == '#');
                assert(false);
            }
            if e.len() >= 4 && e.take(4) == "&lt;"@ {
                assert(e.take(4)[1] == e[1] && e[1] == '#');
                assert(false);
            }
            if e.len() >= 4 && e.take(4) == "&gt;"@ {
                assert(e.take(4)[1] == e[1] && e[1] == '#');
                assert(false);
            }
            if e.len() >= 6 && e.take(6) == "&quot;"@ {
                assert(e.take(6)[1] == e[1] && e[1] == '#');
                assert(false);
            }
            assert(e.take(6) =~= "&#x27;"@);
            assert(e.skip(6) =~= t);
            assert(seq!['\''] + s.drop_first() =~= s);
        } else {
            assert(e[0] == c);
            if e.len() >= 5 && e.take(5) == "&amp;"@ {
                assert(e.take(5)[0] == e[0]);
                assert(false);
            }
            if e.len() >= 4 && e.take(4) == "&lt;"@ {
                assert(e.take(4)[0] == e[0]);
                assert(false);
            }
            if e.len() >= 4 && e.take(4) == "&gt;"@ {
                assert(e.take(4)[0] == e[0]);
                assert(false);
            }
            if e.len() >= 6 && e.take(6) == "&quot;"@ {
                assert(e.take(6)[0] == e[0]);
                assert(false);
            }
            if e.len() >= 6 && e.take(6) == "&#x27;"@ {
                assert(e.take(6)[0] == e[0]);
                assert(false);
            }
            assert(e.skip(1) =~= t);
            assert(seq![c] + s.drop_first() =~= s);
        }
    }
}

/// Relies on `String::push` of std: it appends the given character at the end
/// of the string.
#[verifier::external_body]
pub(crate) fn push_char(s: &mut String, c: char)
    ensures
        final(s)@ == old(s)@.push(c),
{
    s.push(c);
}

/// Escapes a string for placement inside a double-quoted HTML attribute.
pub fn escape_attribute(value: &str) -> (r: String)
    ensures
        r@ == escape_text(value@),
{
    let n = value.unicode_len();
    let mut out = String::new();
    let mut i: usize = 0;
    while i < n
        invariant
            n == value@.len(),
            i <= n,
            out@ == escape_text(value@.take(i as int)),
        decreases n - i,
    {
        let c = value.get_char(i);
        proof {
            assert(value@.take(i as int + 1) =~= value@.take(i as int).push(value@[i as int]));
            lemma_escape_text_push(value@.take(i as int), value@[i as int]);
        }
        if c == '&' {
            out.append("&amp;");
        } else if c == '<' {
            out.append("&lt;");
        } else if c == '>' {
            out.append("&gt;");
        } else if c == '"' {
            out.append("&quot;");
        } else if c == '\'' {
            out.append("&#x27;");
        } else {
            push_char(&mut out, c);
            proof {
                assert(out@ =~= escape_text(value@.take(i as int)) + escape_char(c));
            }
        }
        i = i + 1;
    }
    proof {
        assert(value@.take(n as int) =~= value@);
    }
    out
}

} // verus!
