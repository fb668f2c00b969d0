//! The Markdown viewer: a document fetched by the page, rendered to HTML by
//! pulldown-cmark and framed for display.

use vstd::prelude::*;
use crate::text::{chars_of, push_str, string_from};

verus! {

/// Shown while the document is on its way.
pub const LOADING_HTML: &'static str = "<p style='padding:8px;'>Loading...</p>";

/// Shown when the response's text could not be read.
pub const LOAD_ERROR_HTML: &'static str = "<p style='padding:8px;color:red;'>Error loading file</p>";

/// Shown when the document could not be fetched.
pub const FETCH_ERROR_HTML: &'static str = "<p style='padding:8px;color:red;'>Error fetching file</p>";

/// The HTML that pulldown-cmark renders from the CommonMark text `md`
/// (with its default options).
pub uninterp spec fn markdown_html(md: Seq<char>) -> Seq<char>;

/// Renders `md` with `pulldown_cmark::Parser::new` and
/// `pulldown_cmark::html::push_html` into a fresh string. The contract claims
/// only that the result depends on the text alone: it is `markdown_html`
/// of it.
#[verifier::external_body]
fn render_commonmark(md: &str) -> (html: String)
    ensures
        html@ == markdown_html(md@),
{
    let parser = pulldown_cmark::Parser::new(md);
    let mut out = String::new();
    pulldown_cmark::html::push_html(&mut out, parser);
    out
}

/// The viewer's content for rendered HTML `body`.
pub open spec fn framed(body: Seq<char>) -> Seq<char> {
    "<div class=\"markdown-body\">"@ + body + "</div>"@
}

/// How fetching the document ended.
pub enum FetchOutcome {
    /// The document's text.
    Text(String),
    /// The response came, but its text could not be read.
    TextError,
    /// The request failed.
    FetchError,
}

/// What the viewer shows once the fetch ended with `outcome`.
pub open spec fn content_spec(outcome: FetchOutcome) -> Seq<char> {
    match outcome {
        FetchOutcome::Text(md) => framed(markdown_html(md@)),
        FetchOutcome::TextError => LOAD_ERROR_HTML@,
        FetchOutcome::FetchError => FETCH_ERROR_HTML@,
    }
}

pub struct MarkdownViewer;

impl MarkdownViewer {
    /// Frames rendered HTML for the viewer window.
    pub fn frame(body: &str) -> (page: String)
        ensures
            page@ == framed(body@),
    {
        let mut v = chars_of("<div class=\"markdown-body\">");
        push_str(&mut v, body);
        push_str(&mut v, "</div>");
        string_from(v.as_slice())
    }

    /// The viewer's content for the Markdown text `md`.
    pub fn render(md: &str) -> (page: String)
        ensures
            page@ == framed(markdown_html(md@)),
    {
        let body = render_commonmark(md);
        Self::frame(body.as_str())
    }

    /// What the viewer shows once the fetch ended with `outcome`.
    pub fn content_for(outcome: &FetchOutcome) -> (page: String)
        ensures
            page@ == content_spec(*outcome),
    {
        match outcome {
            FetchOutcome::Text(md) => Self::render(md.as_str()),
            FetchOutcome::TextError => LOAD_ERROR_HTML.to_string(),
            FetchOutcome::FetchError => FETCH_ERROR_HTML.to_string(),
        }
    }
}

} // verus!
