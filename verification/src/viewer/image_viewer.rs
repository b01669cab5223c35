//! Pages of images.

use vstd::prelude::*;

use crate::text::{base_name, concat, concatenated, file_name, text_of, texts};
use crate::viewer::style::STYLE_CSS;

verus! {

/// What stands before the name of the file in the title.
pub const IMAGE_HEAD: &'static str = "<!DOCTYPE html>
<html lang=\"en\">
<head>
    <meta charset=\"UTF-8\">
    <meta name=\"viewport\" content=\"width=device-width, initial-scale=1.0\">
    <title>";

/// What stands between the title and the style.
pub const IMAGE_STYLE: &'static str = " - Forgetty Viewer</title>
    <style>
";

/// The style of the image itself, and the start of the page.
pub const IMAGE_BODY: &'static str = "

body {
    display: flex;
    align-items: center;
    justify-content: center;
    min-height: 100vh;
    padding: 0;
    margin: 0;
}

#content {
    text-align: center;
    padding: 16px;
}

#content img {
    max-width: 100%;
    max-height: 90vh;
    object-fit: contain;
    border-radius: 4px;
}
    </style>
</head>
<body>
    <div id=\"content\">
        <img src=\"file://";

/// What stands between the address of the image and its description.
pub const IMAGE_ALT: &'static str = "\" alt=\"";

/// What stands behind the description.
pub const IMAGE_END: &'static str = "\">
    </div>
</body>
</html>";

/// The name of an image.
pub open spec fn image_name(path: Seq<char>) -> Seq<char> {
    match base_name(path) {
        Some(name) => name,
        None => "Image"@,
    }
}

/// The page of an image, by its name and its absolute path.
pub open spec fn image_page(name: Seq<char>, address: Seq<char>) -> Seq<char> {
    concatenated(
        seq![
            IMAGE_HEAD@,
            name,
            IMAGE_STYLE@,
            STYLE_CSS@,
            IMAGE_BODY@,
            address,
            IMAGE_ALT@,
            name,
            IMAGE_END@,
        ],
    )
}

/// The page of an image. Its address is the absolute path, where that could be
/// found out, else the path as it is.
pub fn render_image(path: &str, absolute: Option<String>) -> (html: String)
    ensures
        html@ == image_page(
            image_name(path@),
            match absolute {
                Some(a) => a@,
                None => path@,
            },
        ),
{
    let address = match absolute {
        Some(a) => a,
        None => path.to_owned(),
    };
    let name = match file_name(path) {
        Some(chars) => text_of(chars.as_slice()),
        None => "Image".to_owned(),
    };
    let parts = [
        IMAGE_HEAD,
        name.as_str(),
        IMAGE_STYLE,
        STYLE_CSS,
        IMAGE_BODY,
        address.as_str(),
        IMAGE_ALT,
        name.as_str(),
        IMAGE_END,
    ];
    let html = concat(&parts);
    assert(texts(parts@) =~= seq![
        IMAGE_HEAD@,
        name@,
        IMAGE_STYLE@,
        STYLE_CSS@,
        IMAGE_BODY@,
        address@,
        IMAGE_ALT@,
        name@,
        IMAGE_END@,
    ]);
    html
}

} // verus!
