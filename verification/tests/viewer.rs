//! Pages of the file viewer.

use forgetty::viewer::image_viewer::render_image;
use forgetty::viewer::markdown::{markdown_page, render_markdown};
use forgetty::viewer::style::STYLE_CSS;
use forgetty::viewer::webview::{
    content_for_file, extension, file_kind, is_previewable, kind_of_extension, FileKind,
    ViewerContent,
};

#[test]
fn generates_html_with_image_src() {
    let html = render_image("/tmp/test-image.png", None);
    assert!(html.contains("file:///tmp/test-image.png"));
    assert!(html.contains("<img"));
    assert!(html.contains("alt=\"test-image.png\""));
}

#[test]
fn image_viewer_wraps_in_full_html_document() {
    let html = render_image("/tmp/photo.jpg", None);
    assert!(html.contains("<!DOCTYPE html>"));
    assert!(html.contains("<html"));
    assert!(html.contains("</html>"));
    assert!(html.contains("--bg: #181818"));
}

#[test]
fn centers_image() {
    let html = render_image("/tmp/photo.jpg", None);
    assert!(html.contains("justify-content: center"));
    assert!(html.contains("align-items: center"));
}

#[test]
fn includes_filename_in_title() {
    let html = render_image("/home/user/docs/diagram.svg", None);
    assert!(html.contains("<title>diagram.svg - Forgetty Viewer</title>"));
}

#[test]
fn the_absolute_path_is_shown_where_it_could_be_found() {
    let html = render_image("photo.jpg", Some("/home/u/photo.jpg".to_string()));
    assert!(html.contains("file:///home/u/photo.jpg"));
    assert!(html.contains("alt=\"photo.jpg\""));
    let html = render_image("pictures/photo.jpg", None);
    assert!(html.contains("file://pictures/photo.jpg"));
}

#[test]
fn renders_headings() {
    let html = render_markdown("# Hello\n## World");
    assert!(html.contains("<h1>Hello</h1>"));
    assert!(html.contains("<h2>World</h2>"));
}

#[test]
fn renders_code_blocks() {
    let md = "```rust\nfn main() {}\n```";
    let html = render_markdown(md);
    assert!(html.contains("<pre><code class=\"language-rust\">"));
    assert!(html.contains("fn main()"));
}

#[test]
fn renders_inline_code() {
    let html = render_markdown("Use `cargo build` to compile.");
    assert!(html.contains("<code>cargo build</code>"));
}

#[test]
fn renders_lists() {
    let md = "- one\n- two\n- three\n";
    let html = render_markdown(md);
    assert!(html.contains("<ul>"));
    assert!(html.contains("<li>one</li>"));
    assert!(html.contains("<li>two</li>"));
    assert!(html.contains("<li>three</li>"));
}

#[test]
fn renders_links() {
    let md = "[Forgetty](https://forgetty.dev)";
    let html = render_markdown(md);
    assert!(html.contains("<a href=\"https://forgetty.dev\">Forgetty</a>"));
}

#[test]
fn markdown_wraps_in_full_html_document() {
    let html = render_markdown("Hello");
    assert!(html.contains("<!DOCTYPE html>"));
    assert!(html.contains("<html"));
    assert!(html.contains("</html>"));
    assert!(html.contains("<style>"));
    assert!(html.contains("--bg: #181818"));
}

#[test]
fn renders_blockquotes() {
    let md = "> This is a quote";
    let html = render_markdown(md);
    assert!(html.contains("<blockquote>"));
}

#[test]
fn renders_strikethrough() {
    let md = "~~deleted~~";
    let html = render_markdown(md);
    assert!(html.contains("<del>deleted</del>"));
}

#[test]
fn renders_tables() {
    let md = "| A | B |\n|---|---|\n| 1 | 2 |";
    let html = render_markdown(md);
    assert!(html.contains("<table>"));
    assert!(html.contains("<th>"));
    assert!(html.contains("<td>"));
}

#[test]
fn renders_task_lists_and_footnotes() {
    assert!(render_markdown("- [x] done").contains("type=\"checkbox\""));
    assert!(render_markdown("a[^1]\n\n[^1]: b").contains("footnote"));
}

#[test]
fn a_page_holds_the_body_and_the_style() {
    let page = markdown_page("<p>body</p>\n");
    assert!(page.contains(STYLE_CSS));
    assert!(page.contains("<p>body</p>\n"));
    assert_eq!(render_markdown("body"), page);
}

#[test]
fn markdown_is_previewable() {
    assert!(is_previewable("README.md"));
    assert!(is_previewable("docs/guide.markdown"));
}

#[test]
fn images_are_previewable() {
    assert!(is_previewable("photo.png"));
    assert!(is_previewable("photo.jpg"));
    assert!(is_previewable("photo.jpeg"));
    assert!(is_previewable("anim.gif"));
    assert!(is_previewable("icon.svg"));
    assert!(is_previewable("banner.webp"));
}

#[test]
fn unknown_extensions_are_not_previewable() {
    assert!(!is_previewable("main.rs"));
    assert!(!is_previewable("data.json"));
    assert!(!is_previewable("Cargo.toml"));
}

#[test]
fn no_extension_is_not_previewable() {
    assert!(!is_previewable("Makefile"));
}

#[test]
fn case_insensitive_extensions() {
    assert!(is_previewable("README.MD"));
    assert!(is_previewable("photo.PNG"));
    assert!(is_previewable("photo.Jpg"));
}

#[test]
fn content_for_unknown_file_returns_none() {
    let result = content_for_file("/tmp/test.rs", Some("fn main() {}".to_string()), None);
    assert!(result.is_none());
}

#[test]
fn content_for_missing_markdown_returns_none() {
    // The file could not be read.
    let result = content_for_file("/tmp/nonexistent-39fj2k.md", None, None);
    assert!(result.is_none());
}

#[test]
fn content_follows_the_kind_of_file() {
    let page = ViewerContent { html: render_markdown("# T"), title: "b.md".to_string() };
    assert_eq!(content_for_file("a/b.md", Some("# T".to_string()), None), Some(page));
    let page =
        ViewerContent { html: render_image("/x/y.GIF", None), title: "y.GIF".to_string() };
    assert_eq!(content_for_file("/x/y.GIF", None, None), Some(page));
}

#[test]
fn a_leading_dot_makes_no_extension() {
    assert_eq!(extension(".md"), None);
    assert_eq!(extension("a.tar.gz"), Some("gz".to_string()));
    assert_eq!(extension("dir.d/file"), None);
    assert_eq!(extension("file."), Some(String::new()));
    assert_eq!(extension(".."), None);
    assert!(!is_previewable(".md"));
    assert_eq!(kind_of_extension("markdown"), Some(FileKind::Markdown));
    assert_eq!(kind_of_extension("MD"), None);
    assert_eq!(file_kind("x.MD"), Some(FileKind::Markdown));
    assert_eq!(file_kind("x.webp"), Some(FileKind::Image));
}
