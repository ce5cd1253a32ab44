//! Contracts for the outside functions the text pipeline calls: pushing a
//! character onto a string, percent-encoding, rendering HTML to text, and
//! resolving URL references. Each is stated over plain values; results that
//! would take pages to state are given names instead.

use vstd::prelude::*;

verus! {

/// `String::push` appends exactly the one character.
pub assume_specification[ String::push ](s: &mut String, c: char)
    ensures
        final(s)@ == old(s)@.push(c),
;

/// What `urlencoding::encode` returns for a given character sequence: the
/// result depends on the input alone.
pub uninterp spec fn url_encoded(s: Seq<char>) -> Seq<char>;

/// Relies on urlencoding::encode: percent-encodes every byte except ASCII
/// alphanumerics and `-`, `_`, `.`, `~`; a pure function of its input.
#[verifier::external_body]
pub fn url_encode(s: &str) -> (r: String)
    ensures
        r@ == url_encoded(s@),
{
    urlencoding::encode(s).into_owned()
}

/// What `html2text::from_read` renders a markup document to at a line width
/// of eighty columns, or `None` where it reports an error: the result
/// depends on the document alone.
pub uninterp spec fn rendered_text(html: Seq<char>) -> Option<Seq<char>>;

/// Relies on html2text::from_read: renders the document's readable text
/// wrapped to eighty columns; a pure function of its input.
#[verifier::external_body]
pub fn html_to_text(html: &str) -> (r: Option<String>)
    ensures
        match r {
            Some(t) => rendered_text(html@) == Some(t@),
            None => rendered_text(html@) is None,
        },
{
    match html2text::from_read(html.as_bytes(), 80) {
        Ok(t) => Some(t),
        Err(_) => None,
    }
}

/// What joining `href` against the base address `base` yields, or `None`
/// where the base does not parse or the join fails: a pure function of the
/// two inputs.
pub uninterp spec fn resolved_url(base: Seq<char>, href: Seq<char>) -> Option<Seq<char>>;

/// Relies on url::Url::parse and url::Url::join: parses the base address and
/// resolves the (possibly relative) reference against it, as the WHATWG URL
/// standard prescribes; a pure function of the two inputs.
#[verifier::external_body]
pub fn join_url(base: &str, href: &str) -> (r: Option<String>)
    ensures
        match r {
            Some(u) => resolved_url(base@, href@) == Some(u@),
            None => resolved_url(base@, href@) is None,
        },
{
    match url::Url::parse(base) {
        Ok(b) => match b.join(href) {
            Ok(u) => Some(u.to_string()),
            Err(_) => None,
        },
        Err(_) => None,
    }
}

} // verus!
