//! The page around rendered markup.
//!
//! The page is a template with four fields: the title, the rendered content,
//! the name of the theme and the script. A page that is served live gets the
//! script that listens for events in front of the common one. The template
//! and the scripts are part of the library; the template engine never sees
//! another template.

use crate::error::{chain_of, from_links, ErrorData};
use crate::text::{push_str, string_of};
use tera::{Context, Tera};
use vstd::prelude::*;

verus! {

/// The template engine `tera::Tera`, carried as a value that is not looked
/// into.
#[verifier::external_type_specification]
#[verifier::external_body]
pub struct ExTera(tera::Tera);

/// The engine's error `tera::Error`, carried as a value that is not looked
/// into.
#[verifier::external_type_specification]
#[verifier::external_body]
pub struct ExTeraError(tera::Error);

/// Whether a page follows the changes of the file.
#[derive(Clone, Copy, Debug, PartialEq, Eq, Structural)]
pub enum Liveness {
    /// The page shows one state of the file.
    Static,
    /// The page listens for events and shows each new state.
    Live,
}

/// The colours of the page.
#[derive(Clone, Copy, Debug, PartialEq, Eq, Structural)]
pub enum Theme {
    Dark,
    Light,
}

impl Theme {
    /// The name of the theme, as the template expects it.
    pub fn as_str(self) -> (name: &'static str)
        ensures
            name@ == match self {
                Theme::Dark => "dark"@,
                Theme::Light => "light"@,
            },
    {
        match self {
            Theme::Dark => "dark",
            Theme::Light => "light",
        }
    }
}

impl Default for Theme {
    /// The dark theme.
    fn default() -> (theme: Self)
        ensures
            theme == Theme::Dark,
    {
        Theme::Dark
    }
}

/// The template of the page.
pub const PAGE: &'static str = r#"<!DOCTYPE html>
<html lang="en" data-color-mode="{{ theme }}" data-{{ theme }}-theme="{{ theme }}">
<head>
<meta charset="utf-8">
<meta name="viewport" content="width=device-width, initial-scale=1">
<title>{{ title }}</title>
<link rel="stylesheet" href="https://cdn.jsdelivr.net/npm/github-markdown-css@5/github-markdown-{{ theme }}.min.css">
<style>
body { margin: 0; }
.theme-dark { background-color: #0d1117; }
.theme-light { background-color: #ffffff; }
.markdown-body { box-sizing: border-box; min-width: 200px; max-width: 980px; margin: 0 auto; padding: 45px; }
.octicon { display: inline-block; fill: currentColor; vertical-align: text-bottom; }
#notice { display: none; padding: 8px 16px; font-family: sans-serif; color: #ffffff; background-color: #b62324; }
</style>
</head>
<body class="theme-{{ theme }}">
<div id="notice"></div>
<article id="content" class="markdown-body">{{ content }}</article>
<script>{{ javascript }}</script>
</body>
</html>
"#;

/// The script of every page.
pub const SCRIPT: &'static str = r#"
for (const anchor of document.querySelectorAll("a[href^='#']")) {
    anchor.addEventListener("click", (event) => {
        const target = document.getElementById("user-content-" + anchor.hash.slice(1));
        if (target !== null) {
            event.preventDefault();
            target.scrollIntoView();
        }
    });
}
"#;

/// The script that a live page runs before the common one.
pub const LIVE_SCRIPT: &'static str = r#"
const content = document.getElementById("content");
const notice = document.getElementById("notice");
const events = new EventSource(window.location.href);
events.addEventListener("update", (event) => {
    notice.style.display = "none";
    content.innerHTML = event.data;
});
events.addEventListener("rate_limited", (event) => {
    const limited = JSON.parse(event.data);
    const reset = new Date(limited.reset * 1000);
    notice.textContent = "Rate limited after " + limited.limit + " requests until " + reset.toLocaleTimeString();
    notice.style.display = "block";
});
events.addEventListener("render_error", (event) => {
    notice.textContent = event.data;
    notice.style.display = "block";
});
"#;

/// The values of the four fields of the template.
#[derive(Debug, PartialEq, Eq)]
pub struct PageFields {
    pub title: String,
    pub content: String,
    pub theme: String,
    pub javascript: String,
}

/// The name of a theme.
pub open spec fn theme_name(theme: Theme) -> Seq<char> {
    match theme {
        Theme::Dark => "dark"@,
        Theme::Light => "light"@,
    }
}

/// The script of a page.
pub open spec fn javascript_for(liveness: Liveness) -> Seq<char> {
    match liveness {
        Liveness::Static => SCRIPT@,
        Liveness::Live => LIVE_SCRIPT@ + SCRIPT@,
    }
}

/// Whether the template engine takes `source` as the only template of a
/// fresh engine: the source parses, defines no block or macro twice, and
/// neither extends nor imports from a template that the engine does not hold.
pub uninterp spec fn accepted(source: Seq<char>) -> bool;

/// The source of the template that an engine holds under the name `html`.
pub uninterp spec fn held_template(engine: Tera) -> Seq<char>;

/// What the engine makes of the page template for the given values of its
/// four fields: the page, or nothing where it reports a failure.
pub uninterp spec fn page_text(
    title: Seq<char>,
    content: Seq<char>,
    theme: Seq<char>,
    javascript: Seq<char>,
) -> Option<Seq<char>>;

/// Makes a template engine with `Tera::default`, switches escaping off with
/// `Tera::autoescape_on`, and registers `source` under the name `html` with
/// `Tera::add_raw_template`. It is only ever handed the page template. The
/// contract names whether the engine takes it, which depends on the source
/// alone, and says that an engine that was made holds this source.
#[verifier::external_body]
fn compile(source: &str) -> (engine: Result<Tera, tera::Error>)
    requires
        source@ == PAGE@,
    ensures
        engine is Ok <==> accepted(source@),
        engine matches Ok(made) ==> held_template(made) == source@,
{
    let mut engine = Tera::default();
    engine.autoescape_on(Vec::new());
    engine.add_raw_template("html", source)?;
    Ok(engine)
}

/// Fills a `tera::Context` with the four fields and renders the template
/// `html` with `Tera::render`. The engine holds the page template and no
/// other. That template prints its four fields and calls nothing, so what
/// comes out depends on the four values alone; the contract names it.
#[verifier::external_body]
fn fill(engine: &Tera, fields: &PageFields) -> (page: Result<String, tera::Error>)
    requires
        held_template(*engine) == PAGE@,
    ensures
        match page {
            Ok(text) => page_text(
                fields.title@,
                fields.content@,
                fields.theme@,
                fields.javascript@,
            ) == Some(text@),
            Err(_) => page_text(
                fields.title@,
                fields.content@,
                fields.theme@,
                fields.javascript@,
            ) is None,
        },
{
    let mut context = Context::new();
    context.insert("title", fields.title.as_str());
    context.insert("content", fields.content.as_str());
    context.insert("theme", fields.theme.as_str());
    context.insert("javascript", fields.javascript.as_str());
    engine.render("html", &context)
}

/// Walks the chain of a `tera::Error` with `std::error::Error::source` and
/// formats each error with `{:?}` and with `{}`. The chain starts with the
/// error itself, so the list is never empty.
#[verifier::external_body]
fn links_of(error: &tera::Error) -> (links: Vec<(String, String)>)
    ensures
        links.len() > 0,
{
    let first: &(dyn std::error::Error + 'static) = error;
    std::iter::successors(Some(first), |link| link.source()).map(
        |link| (format!("{:?}", link), link.to_string()),
    ).collect()
}

/// The failure that the engine reported, as a chain of the library's own:
/// one link for each error of the report, the outermost first.
fn failure(links: Vec<(String, String)>) -> (chain: ErrorData)
    requires
        links.len() > 0,
    ensures
        chain@ == chain_of(links@),
{
    from_links(links).unwrap()
}

/// What a render ends with: the page as the engine wrote it, or its failure
/// as a chain of the library's own.
fn page_or_failure(rendered: Result<String, tera::Error>) -> (page: Result<String, ErrorData>)
    ensures
        match rendered {
            Ok(text) => page matches Ok(p) && p@ == text@,
            Err(_) => page is Err,
        },
{
    match rendered {
        Ok(text) => Ok(text),
        Err(error) => Err(failure(links_of(&error))),
    }
}

/// Writes pages around rendered markup.
pub struct Templater {
    title: String,
    theme: Theme,
    engine: Tera,
}

impl Templater {
    #[verifier::type_invariant]
    spec fn holds_page(&self) -> bool {
        held_template(self.engine) == PAGE@
    }

    /// The title of every page.
    pub closed spec fn title(&self) -> Seq<char> {
        self.title@
    }

    /// The theme of every page.
    pub closed spec fn theme(&self) -> Theme {
        self.theme
    }

    /// A templater for pages with the given title and theme. It is made
    /// exactly where the engine takes the page template; where it does not,
    /// the engine's report is the failure.
    pub fn new(title: String, theme: Theme) -> (made: Result<Templater, ErrorData>)
        ensures
            made is Ok <==> accepted(PAGE@),
            made matches Ok(templater) ==> templater.title() == title@ && templater.theme()
                == theme,
    {
        match compile(PAGE) {
            Ok(engine) => Ok(Templater { title, theme, engine }),
            Err(error) => Err(failure(links_of(&error))),
        }
    }

    /// The values that the template is filled with for the markup `html`.
    pub fn fields(&self, html: &str, liveness: Liveness) -> (fields: PageFields)
        ensures
            fields.title@ == self.title(),
            fields.content@ == html@,
            fields.theme@ == theme_name(self.theme()),
            fields.javascript@ == javascript_for(liveness),
    {
        let mut javascript: Vec<char> = Vec::new();
        match liveness {
            Liveness::Static => {},
            Liveness::Live => {
                push_str(&mut javascript, LIVE_SCRIPT);
            },
        }
        push_str(&mut javascript, SCRIPT);
        PageFields {
            title: self.title.clone(),
            content: html.to_owned(),
            theme: self.theme.as_str().to_owned(),
            javascript: string_of(&javascript),
        }
    }

    /// The page around the markup `html`: what the engine makes of the page
    /// template for the title, the markup, the name of the theme and the
    /// script of the page. Where the engine reports a failure, the failure is
    /// handed on.
    pub fn generate(&self, html: &str, liveness: Liveness) -> (page: Result<String, ErrorData>)
        ensures
            match page {
                Ok(text) => page_text(
                    self.title(),
                    html@,
                    theme_name(self.theme()),
                    javascript_for(liveness),
                ) == Some(text@),
                Err(_) => page_text(
                    self.title(),
                    html@,
                    theme_name(self.theme()),
                    javascript_for(liveness),
                ) is None,
            },
    {
        proof {
            use_type_invariant(self);
        }
        let fields = self.fields(html, liveness);
        page_or_failure(fill(&self.engine, &fields))
    }
}

} // verus!
