//! Escaping of text content for safe inclusion in markup.

use vstd::prelude::*;
use vstd::string::StrSliceExecFns;
use vstd::string::StringExecFns;
use crate::strutil::push_char;
use crate::node::PropValue;
use crate::node::PropValueV;
use crate::node::js_string;
use crate::node::to_string;

verus! {

/// The escaped form of one character: the five markup-significant
/// characters `" & ' < >` become entities, all others are unchanged.
pub open spec fn escape_char(c: char) -> Seq<char> {
    if c == '"' {
        "&quot;"@
    } else if c == '&' {
        "&amp;"@
    } else if c == '\'' {
        "&#x27;"@
    } else if c == '<' {
        "&lt;"@
    } else if c == '>' {
        "&gt;"@
    } else {
        seq![c]
    }
}

/// The escaped form of a character sequence: each character escaped
/// once, in order, and nothing else.
pub open spec fn escape_seq(s: Seq<char>) -> Seq<char>
    decreases s.len(),
{
    if s.len() == 0 {
        Seq::empty()
    } else {
        escape_char(s[0]) + escape_seq(s.drop_first())
    }
}

/// Escapes the five markup-significant characters of a string.
pub fn escape_html(text: &str) -> (r: String)
    ensures
        r@ == escape_seq(text@),
{
    let n = text.unicode_len();
    let mut out = String::new();
    let mut i: usize = 0;
    proof {
        assert(text@.subrange(0, n as int) =~= text@);
        assert(out@ + escape_seq(text@) =~= escape_seq(text@));
    }
    while i < n
        invariant
            n == text@.len(),
            i <= n,
            out@ + escape_seq(text@.subrange(i as int, n as int)) == escape_seq(text@),
        decreases n - i,
    {
        let c = text.get_char(i);
        let ghost prev = out@;
        proof {
            let rest = text@.subrange(i as int, n as int);
            assert(rest.len() > 0);
            assert(rest[0] == text@[i as int]);
            assert(rest.drop_first() =~= text@.subrange(i as int + 1, n as int));
        }
        if c == '"' {
            out.append("&quot;");
        } else if c == '&' {
            out.append("&amp;");
        } else if c == '\'' {
            out.append("&#x27;");
        } else if c == '<' {
            out.append("&lt;");
        } else if c == '>' {
            out.append("&gt;");
        } else {
            push_char(&mut out, c);
            proof {
                assert(out@ =~= prev + seq![c]);
            }
        }
        i = i + 1;
    }
    proof {
        assert(text@.subrange(n as int, n as int) =~= Seq::<char>::empty());
        assert(out@ + Seq::<char>::empty() =~= out@);
    }
    out
}

/// The text a value contributes to rendered content: booleans and
/// numbers keep their literal text, everything else is stringified and
/// escaped.
pub open spec fn escaped_text_content(v: PropValueV) -> Seq<char> {
    match v {
        PropValueV::Bool(_) => js_string(v),
        PropValueV::Number(_) => js_string(v),
        _ => escape_seq(js_string(v)),
    }
}

/// The quoted, escaped form of an attribute value.
pub open spec fn quoted_value(v: PropValueV) -> Seq<char> {
    "\""@ + escaped_text_content(v) + "\""@
}

/// Stringifies a value and escapes it for rendered content.
pub fn escape_text_content_for_browser(value: &PropValue) -> (r: String)
    ensures
        r@ == escaped_text_content(value@),
{
    let text = to_string(value);
    match value {
        PropValue::Bool(_) => text,
        PropValue::Number(_) => text,
        _ => escape_html(text.as_str()),
    }
}

/// Escapes an attribute value and wraps it in double quotes.
pub fn quote_attribute_value_for_browser(value: &PropValue) -> (r: String)
    ensures
        r@ == quoted_value(value@),
{
    let mut out = String::from_str("\"");
    let inner = escape_text_content_for_browser(value);
    out.append(inner.as_str());
    out.append("\"");
    out
}


/// Escaped text is safe for markup: it never contains a raw quote,
/// apostrophe, or angle bracket.
pub proof fn lemma_escape_no_specials(s: Seq<char>)
    ensures
        forall|i: int|
            0 <= i < escape_seq(s).len() ==> #[trigger] escape_seq(s)[i] != '"' && escape_seq(s)[i]
                != '\'' && escape_seq(s)[i] != '<' && escape_seq(s)[i] != '>',
    decreases s.len(),
{
    reveal_strlit("&quot;");
    reveal_strlit("&amp;");
    reveal_strlit("&#x27;");
    reveal_strlit("&lt;");
    reveal_strlit("&gt;");
    if s.len() > 0 {
        lemma_escape_no_specials(s.drop_first());
        let head = escape_char(s[0]);
        assert forall|i: int|
            0 <= i < escape_seq(s).len() implies #[trigger] escape_seq(s)[i] != '"' && escape_seq(
            s,
        )[i] != '\'' && escape_seq(s)[i] != '<' && escape_seq(s)[i] != '>' by {
            if i < head.len() {
                assert(escape_seq(s)[i] == head[i]);
            } else {
                assert(escape_seq(s)[i] == escape_seq(s.drop_first())[i - head.len()]);
            }
        }
    }
}

} // verus!
