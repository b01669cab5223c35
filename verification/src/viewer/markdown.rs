//! Pages of documents in Markdown.

use vstd::prelude::*;

use crate::text::{concat, concatenated, texts};
use crate::viewer::style::STYLE_CSS;

verus! {

/// The extensions of Markdown that are understood: tables, footnotes, struck
/// out text and task lists, by their bits.
pub const MARKDOWN_EXTENSIONS_ON: u32 = 0b11110;

/// What `pulldown_cmark` makes of a document with these extensions.
pub uninterp spec fn markdown_html_of(content: Seq<char>, extensions: u32) -> Seq<char>;

/// Calls `pulldown_cmark::Parser::new_ext` and `pulldown_cmark::html::push_html`
/// on its events. Nothing is claimed of the text but that it depends on the
/// document and on the extensions alone.
#[verifier::external_body]
fn markdown_html(content: &str, extensions: u32) -> (html: String)
    ensures
        html@ == markdown_html_of(content@, extensions),
{
    let options = pulldown_cmark::Options::from_bits_truncate(extensions);
    let mut html = String::new();
    pulldown_cmark::html::push_html(&mut html, pulldown_cmark::Parser::new_ext(content, options));
    html
}

/// What stands before the style in a page.
pub const PAGE_HEAD: &'static str = "<!DOCTYPE html>
<html lang=\"en\">
<head>
    <meta charset=\"UTF-8\">
    <meta name=\"viewport\" content=\"width=device-width, initial-scale=1.0\">
    <title>Forgetty Viewer</title>
    <style>
";

/// What stands between the style and the document.
pub const PAGE_BODY: &'static str = "
    </style>
</head>
<body>
    <div id=\"content\">
";

/// What stands behind the document.
pub const PAGE_END: &'static str = "
    </div>
</body>
</html>";

/// The page around a document.
pub open spec fn markdown_page_of(body: Seq<char>) -> Seq<char> {
    concatenated(seq![PAGE_HEAD@, STYLE_CSS@, PAGE_BODY@, body, PAGE_END@])
}

/// The page around a document.
pub fn markdown_page(body: &str) -> (html: String)
    ensures
        html@ == markdown_page_of(body@),
{
    let parts = [PAGE_HEAD, STYLE_CSS, PAGE_BODY, body, PAGE_END];
    let html = concat(&parts);
    assert(texts(parts@) =~= seq![
        PAGE_HEAD@,
        STYLE_CSS@,
        PAGE_BODY@,
        body@,
        PAGE_END@,
    ]);
    html
}

/// The page of a document in Markdown.
pub fn render_markdown(content: &str) -> (html: String)
    ensures
        html@ == markdown_page_of(markdown_html_of(content@, MARKDOWN_EXTENSIONS_ON)),
{
    markdown_page(markdown_html(content, MARKDOWN_EXTENSIONS_ON).as_str())
}

} // verus!
