use pulldown_cmark::{html, Options, Parser};
use regex::Regex;
use vstd::prelude::*;

verus! {

/// How long fetched repository data is served before it is fetched again, in
/// milliseconds.
pub const REPO_REFRESH_MS: i64 = 600000;

/// The HTML that pulldown-cmark renders from a markdown text with every
/// extension on.
pub uninterp spec fn markdown_html(s: Seq<char>) -> Seq<char>;

/// `s` with every paragraph that holds only white space replaced by `<br/>`.
pub uninterp spec fn blank_paragraphs_as_breaks(s: Seq<char>) -> Seq<char>;

/// Relies on `pulldown_cmark::html::push_html` over `Parser::new_ext` with
/// `Options::all()`, appended to an empty string: the HTML depends on the
/// markdown text alone.
#[verifier::external_body]
fn render_markdown(s: &str) -> (r: String)
    ensures
        r@ == markdown_html(s@),
{
    let mut out = String::new();
    html::push_html(&mut out, Parser::new_ext(s, Options::all()));
    out
}

/// Relies on `regex::Regex::replace_all` with the pattern `(?m)<p>\s*</p>`
/// and the replacement `<br/>`, which holds no group reference.
#[verifier::external_body]
fn replace_blank_paragraphs(s: &str) -> (r: String)
    ensures
        r@ == blank_paragraphs_as_breaks(s@),
{
    Regex::new(r"(?m)<p>\s*</p>").unwrap().replace_all(s, "<br/>").to_string()
}

/// Renders a markdown text as HTML, with empty paragraphs turned into line
/// breaks.
pub fn markdown_to_html(markdown_input: &str) -> (r: String)
    ensures
        r@ == blank_paragraphs_as_breaks(markdown_html(markdown_input@)),
{
    let html_output = render_markdown(markdown_input);
    replace_blank_paragraphs(html_output.as_str())
}

/// Whether fetched repository data is due for a refresh at `now_ms`, given
/// the instant `refresh_at_ms` of the next refresh; when it is, the instant
/// of the refresh after it.
pub fn repo_refresh_due(now_ms: i64, refresh_at_ms: i64) -> (r: Option<i64>)
    requires
        now_ms <= i64::MAX - REPO_REFRESH_MS,
    ensures
        r == (if now_ms > refresh_at_ms {
            Some((now_ms + REPO_REFRESH_MS) as i64)
        } else {
            None::<i64>
        }),
{
    if now_ms > refresh_at_ms {
        Some(now_ms + REPO_REFRESH_MS)
    } else {
        None
    }
}

} // verus!
