//! The style of the viewer's pages.

use vstd::prelude::*;

verus! {

/// The dark theme of the viewer.
pub const STYLE_CSS: &'static str = "/* Dark theme of the viewer. */
:root {
    --bg: #181818;
    --fg: #d4d4d4;
    --muted: #9d9d9d;
    --border: #333333;
    --code-bg: #242424;
    --link: #6cb6ff;
}

* {
    box-sizing: border-box;
}

body {
    background: var(--bg);
    color: var(--fg);
    font-family: sans-serif;
    line-height: 1.6;
    margin: 0;
    padding: 24px;
}

#content {
    max-width: 860px;
    margin: 0 auto;
}

a {
    color: var(--link);
}

code,
pre {
    background: var(--code-bg);
    border-radius: 4px;
    font-family: monospace;
}

code {
    padding: 2px 4px;
}

pre {
    overflow-x: auto;
    padding: 12px;
}

pre code {
    padding: 0;
}

blockquote {
    border-left: 3px solid var(--border);
    color: var(--muted);
    margin-left: 0;
    padding-left: 16px;
}

table {
    border-collapse: collapse;
}

th,
td {
    border: 1px solid var(--border);
    padding: 6px 12px;
}

img {
    max-width: 100%;
}
";

} // verus!
