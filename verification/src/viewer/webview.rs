//! Which files can be shown, and as what.

use vstd::prelude::*;

use crate::text::{
    base_name, file_name, lower_text, lowercase_text_of, same_text, text_of,
};
use crate::viewer::image_viewer::{image_name, image_page, render_image};
use crate::viewer::markdown::{
    markdown_html_of, markdown_page_of, render_markdown, MARKDOWN_EXTENSIONS_ON,
};

verus! {

/// A page that is ready to be shown.
#[derive(Debug, PartialEq, Eq)]
pub struct ViewerContent {
    /// The whole page.
    pub html: String,
    /// The title of the tab or pane that shows it.
    pub title: String,
}

/// As what a file is shown.
#[derive(Clone, Copy, Debug, PartialEq, Eq, Structural)]
pub enum FileKind {
    Markdown,
    Image,
}

/// As what a file with this extension, in lower case, is shown.
pub open spec fn kind_of(extension: Seq<char>) -> Option<FileKind> {
    if extension == "md"@ || extension == "markdown"@ {
        Some(FileKind::Markdown)
    } else if extension == "png"@ || extension == "jpg"@ || extension == "jpeg"@ || extension
        == "gif"@ || extension == "svg"@ || extension == "webp"@ {
        Some(FileKind::Image)
    } else {
        None
    }
}

/// As what a file with this extension, in lower case, is shown.
pub fn kind_of_extension(extension: &str) -> (kind: Option<FileKind>)
    ensures
        kind == kind_of(extension@),
{
    if same_text(extension, "md") || same_text(extension, "markdown") {
        Some(FileKind::Markdown)
    } else if same_text(extension, "png") || same_text(extension, "jpg") || same_text(
        extension,
        "jpeg",
    ) || same_text(extension, "gif") || same_text(extension, "svg") || same_text(
        extension,
        "webp",
    ) {
        Some(FileKind::Image)
    } else {
        None
    }
}

/// What stands behind the last dot of a name, unless the name begins with it.
pub open spec fn after_last_dot(name: Seq<char>, n: int) -> Option<Seq<char>>
    decreases n,
{
    if n <= 1 {
        None
    } else if name[n - 1] == '.' {
        Some(name.skip(n))
    } else {
        after_last_dot(name, n - 1)
    }
}

/// The extension of a file.
pub open spec fn extension_of(path: Seq<char>) -> Option<Seq<char>> {
    match base_name(path) {
        Some(name) => after_last_dot(name, name.len() as int),
        None => None,
    }
}

/// The extension of a file.
pub fn extension(path: &str) -> (ext: Option<String>)
    ensures
        match ext {
            Some(e) => extension_of(path@) == Some(e@),
            None => extension_of(path@) is None,
        },
{
    let name = match file_name(path) {
        Some(name) => name,
        None => {
            return None;
        },
    };
    let mut n: usize = name.len();
    while n > 1
        invariant
            n <= name@.len(),
            after_last_dot(name@, name@.len() as int) == after_last_dot(name@, n as int),
            base_name(path@) == Some(name@),
        decreases n,
    {
        if name[n - 1] == '.' {
            let mut out: Vec<char> = Vec::new();
            let mut k: usize = n;
            while k < name.len()
                invariant
                    n <= k <= name@.len(),
                    out@ == name@.subrange(n as int, k as int),
                decreases name@.len() - k,
            {
                out.push(name[k]);
                k = k + 1;
                assert(out@ =~= name@.subrange(n as int, k as int));
            }
            assert(out@ =~= name@.skip(n as int));
            return Some(text_of(out.as_slice()));
        }
        n = n - 1;
    }
    None
}

/// As what a file is shown, by its path. The case of the extension does not
/// count.
pub open spec fn kind_of_path(path: Seq<char>) -> Option<FileKind> {
    match extension_of(path) {
        Some(e) => kind_of(lowercase_text_of(e)),
        None => None,
    }
}

/// As what a file is shown, by its path.
pub fn file_kind(path: &str) -> (kind: Option<FileKind>)
    ensures
        kind == kind_of_path(path@),
{
    match extension(path) {
        Some(e) => kind_of_extension(lower_text(e.as_str()).as_str()),
        None => None,
    }
}

/// Whether a file can be shown.
pub fn is_previewable(path: &str) -> (b: bool)
    ensures
        b == (kind_of_path(path@) is Some),
{
    file_kind(path).is_some()
}

/// The title of a file's page.
pub open spec fn title_of(path: Seq<char>) -> Seq<char> {
    match base_name(path) {
        Some(name) => name,
        None => "Untitled"@,
    }
}

/// The page of a file of a known kind. `content` is its text, where it could be
/// read; `absolute` its absolute path, where that could be found out. Only a
/// document has to be readable.
pub fn content_of_kind(
    kind: Option<FileKind>,
    path: &str,
    content: Option<String>,
    absolute: Option<String>,
) -> (page: Option<ViewerContent>)
    ensures
        match kind {
            Some(FileKind::Markdown) => match content {
                Some(text) => page matches Some(p) && p.title@ == title_of(path@) && p.html@
                    == markdown_page_of(markdown_html_of(text@, MARKDOWN_EXTENSIONS_ON)),
                None => page is None,
            },
            Some(FileKind::Image) => page matches Some(p) && p.title@ == title_of(path@) && p.html@
                == image_page(
                image_name(path@),
                match absolute {
                    Some(a) => a@,
                    None => path@,
                },
            ),
            None => page is None,
        },
{
    let title = match file_name(path) {
        Some(chars) => text_of(chars.as_slice()),
        None => "Untitled".to_owned(),
    };
    match kind {
        Some(FileKind::Markdown) => match content {
            Some(text) => Some(ViewerContent { html: render_markdown(text.as_str()), title }),
            None => None,
        },
        Some(FileKind::Image) => Some(
            ViewerContent { html: render_image(path, absolute), title },
        ),
        None => None,
    }
}

/// The page of a file, where it can be shown.
pub fn content_for_file(path: &str, content: Option<String>, absolute: Option<String>) -> (page:
    Option<ViewerContent>)
    ensures
        match kind_of_path(path@) {
            Some(FileKind::Markdown) => match content {
                Some(text) => page matches Some(p) && p.title@ == title_of(path@) && p.html@
                    == markdown_page_of(markdown_html_of(text@, MARKDOWN_EXTENSIONS_ON)),
                None => page is None,
            },
            Some(FileKind::Image) => page matches Some(p) && p.title@ == title_of(path@) && p.html@
                == image_page(
                image_name(path@),
                match absolute {
                    Some(a) => a@,
                    None => path@,
                },
            ),
            None => page is None,
        },
{
    content_of_kind(file_kind(path), path, content, absolute)
}

} // verus!
