use vstd::prelude::*;

use crate::grammar::document;
use crate::html::{html_of, to_html};
use crate::parser::{fails, parse_document, Document, ParseError};

verus! {

/// The doctype line followed by the root element's HTML.
pub fn render_document(doc: &Document) -> (r: String)
    ensures
        r@ == doc.doctype@ + html_of(doc.root.node()),
{
    let mut out = doc.doctype.clone();
    let body = to_html(&doc.root);
    out.append(body.as_str());
    out
}

/// Parses `input` and renders it, before any pretty-printing. The result
/// is a function of the input alone.
pub fn compile(input: &str) -> (r: Result<String, ParseError>)
    ensures
        match document(input@) {
            Ok((t, n)) => r is Ok && r->Ok_0@ == t + html_of(n),
            Err(x) => fails(r, x),
        },
{
    match parse_document(input) {
        Ok(doc) => Ok(render_document(&doc)),
        Err(e) => Err(e),
    }
}

/// The pretty-printer's output where it gave one, else the unformatted
/// text unchanged.
pub fn formatted_or_raw(raw: String, formatted: Option<String>) -> (r: String)
    ensures
        r@ == (match formatted {
            Some(f) => f@,
            None => raw@,
        }),
{
    match formatted {
        Some(f) => f,
        None => raw,
    }
}

} // verus!
