//! HTML escaping for character data and attribute values.
//!
//! Exactly five characters are significant to HTML in those positions:
//! `&`, `<`, `>`, `"` and `'`. Escaping replaces each of them with its
//! character reference and leaves every other character untouched.

use vstd::prelude::*;
use vstd::std_specs::iter::IteratorSpec;

verus! {

broadcast use vstd::string::group_string_axioms;

/// The five characters that must not appear raw in escaped output.
pub open spec fn is_special_char(c: char) -> bool {
    c == '&' || c == '<' || c == '>' || c == '"' || c == '\''
}

/// What one character becomes in escaped output: a character reference for
/// the five special characters, the character itself for every other one.
pub open spec fn escape_char(c: char) -> Seq<char> {
    if c == '&' {
        "&amp;"@
    } else if c == '<' {
        "&lt;"@
    } else if c == '>' {
        "&gt;"@
    } else if c == '"' {
        "&quot;"@
    } else if c == '\'' {
        "&#39;"@
    } else {
        seq![c]
    }
}

/// The escaped form of a whole text: each character replaced by
/// [`escape_char`], in order.
pub open spec fn spec_escape(s: Seq<char>) -> Seq<char>
    decreases s.len(),
{
    if s.len() == 0 {
        Seq::empty()
    } else {
        spec_escape(s.drop_last()) + escape_char(s.last())
    }
}

/// Relies on String::push: appends the given character to the end of the string.
#[verifier::external_body]
fn push_char(s: &mut String, c: char)
    ensures
        final(s)@ == old(s)@ + seq![c],
{
    s.push(c)
}

/// Escapes `s` for use as HTML character data or as an attribute value.
pub fn escape_str(s: &str) -> (r: String)
    ensures
        r@ == spec_escape(s@),
{
    let mut out = String::new();
    let mut it = s.chars();
    let ghost mut done: Seq<char> = Seq::empty();
    proof {
        assert(done + it.remaining() =~= s@);
    }
    loop
        invariant
            done + it.remaining() =~= s@,
            out@ == spec_escape(done),
        decreases s@.len() - done.len(),
    {
        let ghost prev_remaining: Seq<char> = it.remaining();
        let c_opt = it.next();
        match c_opt {
            Some(c) => {
                if c == '&' {
                    out.append("&amp;");
                } else if c == '<' {
                    out.append("&lt;");
                } else if c == '>' {
                    out.append("&gt;");
                } else if c == '"' {
                    out.append("&quot;");
                } else if c == '\'' {
                    out.append("&#39;");
                } else {
                    push_char(&mut out, c);
                }
                proof {
                    assert(done.push(c).drop_last() =~= done);
                    assert(spec_escape(done.push(c)) == spec_escape(done) + escape_char(c));
                    assert(done.push(c) + prev_remaining.drop_first() =~= done + prev_remaining);
                    done = done.push(c);
                }
            },
            None => {
                proof {
                    assert(done =~= s@);
                }
                return out;
            },
        }
    }
}

/// Text without special characters is left unchanged by escaping.
pub proof fn lemma_escape_plain_text(s: Seq<char>)
    requires
        forall|i: int| 0 <= i < s.len() ==> !is_special_char(#[trigger] s[i]),
    ensures
        spec_escape(s) == s,
    decreases s.len(),
{
    if s.len() == 0 {
        assert(spec_escape(s) =~= s);
    } else {
        lemma_escape_plain_text(s.drop_last());
        assert(!is_special_char(s[s.len() - 1]));
        assert(escape_char(s.last()) =~= seq![s.last()]);
        assert(spec_escape(s) =~= s);
    }
}

} // verus!
