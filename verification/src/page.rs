//! The page that a document can be wrapped in.

use vstd::prelude::*;

verus! {

/// The page up to the place of the document.
pub const PAGE_HEAD: &'static str = r#"<!DOCTYPE html>
<html lang="en">
<head>
    <meta charset="UTF-8" />
    <meta name="viewport" content="width=device-width, initial-scale=1.0" />
    <title>Hackatime Heatmap</title>
    <style>
        :root {
            --bg-color: #ffffff;
            --text-color: #24292f;
        }
        @media (prefers-color-scheme: dark) {
            :root {
                --bg-color: #0d1117;
                --text-color: #c9d1d9;
            }
        }
        body {
            margin: 0;
            padding: 0;
            background-color: var(--bg-color);
            color: var(--text-color);
            min-height: 100vh;
            display: flex;
            align-items: flex-start;
            justify-content: center;
            overflow: hidden;
        }
        .container {
            text-align: center;
            padding: 20px;
        }
        .title {
            font-size: 2rem;
            font-weight: 600;
            margin-bottom: 24px;
            color: var(--text-color);
        }
        .heatmap-container {
            display: inline-block;
        }
    </style>
</head>
<body>
    <div class="container">
        <h1 class="title">Hackatime Activity Heatmap</h1>
        <p>Hover over each cell to see detailed data for that day!</p>
        <div class="heatmap-container">
            "#;

/// The page after the document.
pub const PAGE_TAIL: &'static str = r#"
        </div>
    </div>
    <script>
        const params = new URLSearchParams(window.location.search);
        const currentTheme = params.get('theme') || 'auto';
        const prefersDark = window.matchMedia('(prefers-color-scheme: dark)').matches;
        
        let preferredTheme;
        if (currentTheme === 'auto') {
            preferredTheme = prefersDark ? 'dark' : 'light';
        } else if (currentTheme === 'catppuccin') {
            preferredTheme = prefersDark ? 'catppuccin_dark' : 'catppuccin_light';
        } else {
            preferredTheme = currentTheme;
        }
        
        if (currentTheme !== preferredTheme) {
            params.set('theme', preferredTheme);
            window.location.search = params.toString();
        }
    </script>
</body>
</html>"#;

/// The body of a response: the document itself, or a page of its own
/// around it where the request asks for one.
pub open spec fn page_text(svg: Seq<char>, standalone: bool) -> Seq<char> {
    if standalone {
        PAGE_HEAD@ + svg + PAGE_TAIL@
    } else {
        svg
    }
}

/// Wraps a document in a page of its own, where `standalone` asks for it.
pub fn embed_page(svg: &str, standalone: bool) -> (body: String)
    ensures
        body@ == page_text(svg@, standalone),
{
    if !standalone {
        return String::from_str(svg);
    }
    let mut body = String::from_str(PAGE_HEAD);
    body.append(svg);
    body.append(PAGE_TAIL);
    body
}

/// The content type of a response: a page where the request asks for one,
/// else a picture.
pub open spec fn content_type_text(standalone: bool) -> Seq<char> {
    if standalone {
        "text/html"@
    } else {
        "image/svg+xml"@
    }
}

/// The content type of a response.
pub fn content_type(standalone: bool) -> (name: &'static str)
    ensures
        name@ == content_type_text(standalone),
{
    if standalone {
        "text/html"
    } else {
        "image/svg+xml"
    }
}

} // verus!
