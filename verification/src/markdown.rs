//! Rendering of paste contents for display.

use pulldown_cmark::html;
use pulldown_cmark::Parser;
use vstd::prelude::*;

verus! {

/// The HTML rendering of the given Markdown text; it depends on the text
/// alone.
pub uninterp spec fn html_of(s: Seq<char>) -> Seq<char>;

/// Renders Markdown text to HTML.
///
/// Relies on `pulldown_cmark::Parser` and `pulldown_cmark::html::push_html`:
/// the rendering is a pure function of the input text, with no failure
/// modes that affect the paste lifecycle.
#[verifier::external_body]
pub fn render_markdown(markdown: String) -> (r: String)
    ensures
        r@ == html_of(markdown@),
{
    let parser = Parser::new(&markdown);
    let mut html_buf = String::new();
    html::push_html(&mut html_buf, parser);
    html_buf
}

} // verus!
