//! The token model: a closed set of HTML token variants, each rendered to
//! text independently and statelessly.
//!
//! `Text` content and attribute values are escaped on output; `RawText` and
//! `Comment` content are emitted verbatim, and tag and attribute names are
//! never escaped. Callers choosing `RawText` accept responsibility for the
//! safety of the output, for instance for inline script or style bodies.

use vstd::prelude::*;
use crate::attr::AttributeSet;
use crate::attr::spec_render_attrs;
use crate::escape::escape_str;
use crate::escape::spec_escape;

verus! {

/// An HTML token. By convention, `Token::Text` should be preferred over
/// `Token::RawText` when a piece of text can be represented by both: use
/// `Token::Text` for ordinary character data, and `Token::RawText` only for
/// text that must reach the output unescaped, such as the body of a
/// `<style>` tag.
#[derive(Clone, Debug)]
pub enum Token {
    StartTag {
        name: String,
        attrs: AttributeSet,
        /// Marker indicating self-closing tags such as `<br />`
        self_closing: bool,
    },
    EndTag {
        name: String,
    },
    /// Character data; the content is escaped on rendering.
    Text(String),
    /// Text rendered exactly as it is, with no escaping.
    RawText(String),
    /// A comment rendered between `<!--` and `-->`. No validation ensures
    /// that the content does not itself contain `-->`.
    Comment(String),
    /// The HTML5 DOCTYPE declaration.
    DOCTYPE,
}

/// What a token renders to, variant by variant. Tag names pass through
/// unescaped; only `Text` content and attribute values are escaped.
pub open spec fn spec_render_token(t: Token) -> Seq<char> {
    match t {
        Token::StartTag { name, attrs, self_closing } => "<"@ + name@ + spec_render_attrs(attrs@)
            + (if self_closing {
            " />"@
        } else {
            ">"@
        }),
        Token::EndTag { name } => "</"@ + name@ + ">"@,
        Token::Text(content) => spec_escape(content@),
        Token::RawText(content) => content@,
        Token::Comment(content) => "<!--"@ + content@ + "-->"@,
        Token::DOCTYPE => "<!DOCTYPE html>"@,
    }
}

impl Token {
    /// A start tag with the given attributes; `self_closing` defaults to
    /// false.
    pub fn start_tag(name: String, attrs: AttributeSet) -> (r: Token)
        ensures
            r == (Token::StartTag { name, attrs, self_closing: false }),
    {
        Token::StartTag { name, attrs, self_closing: false }
    }

    /// An end tag with the given name.
    pub fn end_tag(name: String) -> (r: Token)
        ensures
            r == (Token::EndTag { name }),
    {
        Token::EndTag { name }
    }

    /// Character data, escaped when rendered.
    pub fn text(s: String) -> (r: Token)
        ensures
            r == Token::Text(s),
    {
        Token::Text(s)
    }

    /// Text rendered verbatim.
    pub fn raw_text(s: String) -> (r: Token)
        ensures
            r == Token::RawText(s),
    {
        Token::RawText(s)
    }

    /// A comment with the given content.
    pub fn comment(s: String) -> (r: Token)
        ensures
            r == Token::Comment(s),
    {
        Token::Comment(s)
    }

    /// If `self` is a `StartTag`, the same token with `self_closing` set to
    /// true; for every other variant, the token unchanged.
    pub fn closed(self) -> (r: Token)
        ensures
            r == (match self {
                Token::StartTag { name, attrs, self_closing } => Token::StartTag {
                    name,
                    attrs,
                    self_closing: true,
                },
                _ => self,
            }),
    {
        match self {
            Token::StartTag { name, attrs, self_closing: _ } => Token::StartTag {
                name,
                attrs,
                self_closing: true,
            },
            other => other,
        }
    }

    /// Renders this token to HTML text.
    pub fn to_html(&self) -> (r: String)
        ensures
            r@ == spec_render_token(*self),
    {
        match self {
            Token::StartTag { name, attrs, self_closing } => {
                let mut out = String::from_str("<");
                out.append(name.as_str());
                let rendered = attrs.to_html();
                out.append(rendered.as_str());
                if *self_closing {
                    out.append(" />");
                } else {
                    out.append(">");
                }
                proof {
                    assert(out@ =~= spec_render_token(*self));
                }
                out
            },
            Token::EndTag { name } => {
                let mut out = String::from_str("</");
                out.append(name.as_str());
                out.append(">");
                proof {
                    assert(out@ =~= spec_render_token(*self));
                }
                out
            },
            Token::Text(content) => escape_str(content.as_str()),
            Token::RawText(content) => content.clone(),
            Token::Comment(content) => {
                let mut out = String::from_str("<!--");
                out.append(content.as_str());
                out.append("-->");
                proof {
                    assert(out@ =~= spec_render_token(*self));
                }
                out
            },
            Token::DOCTYPE => String::from_str("<!DOCTYPE html>"),
        }
    }
}

} // verus!
