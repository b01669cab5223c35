//! Which files are shown, and what their pages hold.

use vstd::prelude::*;

use crate::text::{concatenated, lowercase_text_of};
use crate::text_laws::{is_plain_name, lacks, law_name_at_the_end_of_a_path, law_texts_put_together};
use crate::viewer::image_viewer::{image_name, image_page};
use crate::viewer::markdown::markdown_page_of;
use crate::viewer::webview::{
    after_last_dot, extension_of, kind_of, kind_of_path, title_of, FileKind,
};

verus! {

/// The extension of a file is what stands behind the last dot of its name, unless the
/// name begins with that dot or has none.
pub proof fn law_extension_is_behind_the_last_dot(name: Seq<char>, n: int)
    requires
        0 <= n <= name.len(),
        forall|k: int| n <= k < name.len() ==> #[trigger] name[k] != '.',
    ensures
        after_last_dot(name, n) matches Some(e) ==> e.len() < name.len() - 1 && lacks(e, '.')
            && name[name.len() - e.len() - 1] == '.' && e == name.skip(name.len() - e.len()),
        after_last_dot(name, n) is None ==> forall|k: int|
            1 <= k < name.len() ==> #[trigger] name[k] != '.',
    decreases n,
{
    if n > 1 {
        if name[n - 1] == '.' {
            let e = name.skip(n);
            assert forall|i: int| 0 <= i < e.len() implies #[trigger] e[i] != '.' by {
                assert(e[i] == name[n + i]);
            }
        } else {
            law_extension_is_behind_the_last_dot(name, n - 1);
        }
    }
}

/// A file in a directory has the extension and the title that its name has.
pub proof fn law_file_has_the_extension_of_its_name(dir: Seq<char>, name: Seq<char>)
    requires
        is_plain_name(name),
    ensures
        extension_of(dir.push('/') + name) == extension_of(name),
        extension_of(name) == after_last_dot(name, name.len() as int),
        kind_of_path(dir.push('/') + name) == kind_of_path(name),
        title_of(dir.push('/') + name) == name,
        title_of(name) == name,
        image_name(dir.push('/') + name) == name,
{
    law_name_at_the_end_of_a_path(dir, name);
}

/// The kind of a file is told by its extension in small letters, and by nothing else; one
/// without an extension has none.
pub proof fn law_kind_goes_by_the_extension(a: Seq<char>, b: Seq<char>)
    requires
        extension_of(a) is Some,
        extension_of(b) is Some,
        lowercase_text_of(extension_of(a)->0) == lowercase_text_of(extension_of(b)->0),
    ensures
        kind_of_path(a) == kind_of_path(b),
        kind_of_path(a) is Some ==> kind_of_path(a) == kind_of(
            lowercase_text_of(extension_of(a)->0),
        ),
{
}

/// The extensions of documents and of images.
pub proof fn law_extensions_that_are_shown(e: Seq<char>)
    ensures
        kind_of(e) == Some(FileKind::Markdown) <==> seq!["md"@, "markdown"@].contains(e),
        kind_of(e) == Some(FileKind::Image) <==> seq![
            "png"@, "jpg"@, "jpeg"@, "gif"@, "svg"@, "webp"@,
        ].contains(e),
{
    let docs = seq!["md"@, "markdown"@];
    assert(docs[0] == "md"@ && docs[1] == "markdown"@);
    let images = seq!["png"@, "jpg"@, "jpeg"@, "gif"@, "svg"@, "webp"@];
    assert(images[0] == "png"@ && images[1] == "jpg"@ && images[2] == "jpeg"@ && images[3] == "gif"@
        && images[4] == "svg"@ && images[5] == "webp"@);
    reveal_strlit("md");
    reveal_strlit("markdown");
    reveal_strlit("png");
    reveal_strlit("jpg");
    reveal_strlit("jpeg");
    reveal_strlit("gif");
    reveal_strlit("svg");
    reveal_strlit("webp");
    assert("md"@.len() == 2 && "markdown"@.len() == 8 && "png"@.len() == 3 && "jpg"@.len() == 3
        && "jpeg"@.len() == 4 && "gif"@.len() == 3 && "svg"@.len() == 3 && "webp"@.len() == 4);
}

/// Whether a page is a text between two others.
pub open spec fn lies_between(page: Seq<char>, before: Seq<char>, text: Seq<char>, after: Seq<char>) -> bool {
    page == before + text + after
}

/// The page of a document holds what was made of the document, and all pages are the same
/// before it and behind it.
pub proof fn law_page_holds_the_document(body: Seq<char>, other: Seq<char>)
    ensures
        exists|before: Seq<char>, after: Seq<char>| #[trigger]
            lies_between(markdown_page_of(body), before, body, after) && lies_between(
                markdown_page_of(other),
                before,
                other,
                after,
            ),
{
    let before = concatenated(
        seq![
            crate::viewer::markdown::PAGE_HEAD@,
            crate::viewer::style::STYLE_CSS@,
            crate::viewer::markdown::PAGE_BODY@,
        ],
    );
    let after = crate::viewer::markdown::PAGE_END@;
    lemma_page(body, before, after);
    lemma_page(other, before, after);
    assert(lies_between(markdown_page_of(body), before, body, after));
}

/// Whether a page is an address between two texts, with a name before and behind it.
pub open spec fn shows_image(
    page: Seq<char>,
    a: Seq<char>,
    b: Seq<char>,
    c: Seq<char>,
    d: Seq<char>,
    name: Seq<char>,
    address: Seq<char>,
) -> bool {
    page == a + name + b + address + c + name + d
}

/// The page of an image has its name, its address and its name again, and all such pages
/// are the same around them.
pub proof fn law_page_shows_the_image(
    name: Seq<char>,
    address: Seq<char>,
    other_name: Seq<char>,
    other_address: Seq<char>,
)
    ensures
        exists|a: Seq<char>, b: Seq<char>, c: Seq<char>, d: Seq<char>| #[trigger]
            shows_image(image_page(name, address), a, b, c, d, name, address) && shows_image(
                image_page(other_name, other_address),
                a,
                b,
                c,
                d,
                other_name,
                other_address,
            ),
{
    let a = crate::viewer::image_viewer::IMAGE_HEAD@;
    let b = crate::viewer::image_viewer::IMAGE_STYLE@ + crate::viewer::style::STYLE_CSS@
        + crate::viewer::image_viewer::IMAGE_BODY@;
    let c = crate::viewer::image_viewer::IMAGE_ALT@;
    let d = crate::viewer::image_viewer::IMAGE_END@;
    lemma_image_page(name, address);
    lemma_image_page(other_name, other_address);
    assert(shows_image(image_page(name, address), a, b, c, d, name, address));
}

proof fn lemma_image_page(name: Seq<char>, address: Seq<char>)
    ensures
        shows_image(
            image_page(name, address),
            crate::viewer::image_viewer::IMAGE_HEAD@,
            crate::viewer::image_viewer::IMAGE_STYLE@ + crate::viewer::style::STYLE_CSS@
                + crate::viewer::image_viewer::IMAGE_BODY@,
            crate::viewer::image_viewer::IMAGE_ALT@,
            crate::viewer::image_viewer::IMAGE_END@,
            name,
            address,
        ),
{
    let a = crate::viewer::image_viewer::IMAGE_HEAD@;
    let s = crate::viewer::image_viewer::IMAGE_STYLE@;
    let css = crate::viewer::style::STYLE_CSS@;
    let o = crate::viewer::image_viewer::IMAGE_BODY@;
    let c = crate::viewer::image_viewer::IMAGE_ALT@;
    let d = crate::viewer::image_viewer::IMAGE_END@;
    let none = Seq::<Seq<char>>::empty();
    law_texts_put_together(none, none, a);
    law_texts_put_together(seq![a], seq![name], name);
    law_texts_put_together(seq![a, name], seq![s], s);
    law_texts_put_together(seq![a, name, s], seq![css], css);
    law_texts_put_together(seq![a, name, s, css], seq![o], o);
    law_texts_put_together(seq![a, name, s, css, o], seq![address], address);
    law_texts_put_together(seq![a, name, s, css, o, address], seq![c], c);
    law_texts_put_together(seq![a, name, s, css, o, address, c], seq![name], name);
    law_texts_put_together(seq![a, name, s, css, o, address, c, name], seq![d], d);
    assert(seq![a] + seq![name] =~= seq![a, name]);
    assert(seq![a, name] + seq![s] =~= seq![a, name, s]);
    assert(seq![a, name, s] + seq![css] =~= seq![a, name, s, css]);
    assert(seq![a, name, s, css] + seq![o] =~= seq![a, name, s, css, o]);
    assert(seq![a, name, s, css, o] + seq![address] =~= seq![a, name, s, css, o, address]);
    assert(seq![a, name, s, css, o, address] + seq![c] =~= seq![a, name, s, css, o, address, c]);
    assert(seq![a, name, s, css, o, address, c] + seq![name] =~= seq![
        a,
        name,
        s,
        css,
        o,
        address,
        c,
        name,
    ]);
    let all = seq![a, name, s, css, o, address, c, name, d];
    assert(seq![a, name, s, css, o, address, c, name] + seq![d] =~= all);
    assert(concatenated(all) =~= a + name + (s + css + o) + address + c + name + d);
}

proof fn lemma_page(body: Seq<char>, before: Seq<char>, after: Seq<char>)
    requires
        before == concatenated(
            seq![
                crate::viewer::markdown::PAGE_HEAD@,
                crate::viewer::style::STYLE_CSS@,
                crate::viewer::markdown::PAGE_BODY@,
            ],
        ),
        after == crate::viewer::markdown::PAGE_END@,
    ensures
        markdown_page_of(body) == (before + body) + after,
{
    let first = seq![
        crate::viewer::markdown::PAGE_HEAD@,
        crate::viewer::style::STYLE_CSS@,
        crate::viewer::markdown::PAGE_BODY@,
    ];
    let all = seq![
        crate::viewer::markdown::PAGE_HEAD@,
        crate::viewer::style::STYLE_CSS@,
        crate::viewer::markdown::PAGE_BODY@,
        body,
        after,
    ];
    assert(all =~= first + seq![body] + seq![after]);
    law_texts_put_together(first, seq![body], body);
    law_texts_put_together(first + seq![body], seq![after], after);
}

} // verus!
