//! The responses of the site: its two pages, and the rendered page that
//! replaces the body of a response whose status has an error handler.
use vstd::prelude::*;
use vstd::string::*;

use crate::render::{asks_for, render_template_with_vars, template_file, vars_map, RenderFailure, RenderRequest};

verus! {

pub const OK: u16 = 200;

pub const NOT_FOUND: u16 = 404;

pub const INTERNAL_SERVER_ERROR: u16 = 500;

#[derive(Clone, Copy, Debug, PartialEq, Eq, Structural)]
pub enum ContentKind {
    Html,
    PlainText,
}

/// A response to send: its status code, the kind of its body, and the body.
pub struct Response {
    pub status: u16,
    pub content: ContentKind,
    pub body: String,
}

/// The response's status, kind and body text.
pub open spec fn response_view(r: Response) -> (u16, ContentKind, Seq<char>) {
    (r.status, r.content, r.body@)
}

pub open spec fn internal_error_text() -> Seq<char> {
    "Internal Server Error - Please try again later."@
}

pub open spec fn not_found_text() -> Seq<char> {
    "Page not found"@
}

#[derive(Clone, Copy, Debug, PartialEq, Eq, Structural)]
pub enum Page {
    Index,
    About,
}

/// The name of a page's template, before the file suffix.
pub open spec fn page_template(page: Page) -> Seq<char> {
    match page {
        Page::Index => "index"@,
        Page::About => "about"@,
    }
}

/// The title that a page is rendered with.
pub open spec fn page_title(page: Page) -> Seq<char> {
    match page {
        Page::Index => "Home"@,
        Page::About => "About"@,
    }
}

pub fn page_template_name(page: Page) -> (r: &'static str)
    ensures
        r@ == page_template(page),
{
    match page {
        Page::Index => "index",
        Page::About => "about",
    }
}

pub fn page_title_text(page: Page) -> (r: &'static str)
    ensures
        r@ == page_title(page),
{
    match page {
        Page::Index => "Home",
        Page::About => "About",
    }
}

/// The name of the one variable a page is rendered with.
pub open spec fn title_key() -> Seq<char> {
    "title"@
}

/// The variables a page is rendered with: its title alone.
pub open spec fn page_vars(page: Page) -> Map<Seq<char>, Seq<char>> {
    map![title_key() => page_title(page)]
}

/// The response for a page from the outcome of rendering it.
pub open spec fn page_view(rendered: Result<String, RenderFailure>) -> (u16, ContentKind, Seq<char>) {
    match rendered {
        Ok(body) => (OK, ContentKind::Html, body@),
        Err(_) => (INTERNAL_SERVER_ERROR, ContentKind::PlainText, internal_error_text()),
    }
}

/// `r` is what `render` gives for the page's own template and variables.
pub open spec fn renders_page<F: Fn(RenderRequest) -> Result<String, RenderFailure>>(
    render: F,
    page: Page,
    r: Result<String, RenderFailure>,
) -> bool {
    exists|req: RenderRequest|
        asks_for(req, template_file(page_template(page)), page_vars(page))
            && #[trigger] render.ensures((req,), r)
}

/// The response for a page, from the outcome of rendering it: the page as
/// HTML, or a generic internal error that tells nothing of the reason.
pub fn page_response(rendered: &Result<String, RenderFailure>) -> (r: Response)
    ensures
        response_view(r) == page_view(*rendered),
{
    match rendered {
        Ok(body) => Response { status: OK, content: ContentKind::Html, body: body.clone() },
        Err(_) => Response {
            status: INTERNAL_SERVER_ERROR,
            content: ContentKind::PlainText,
            body: "Internal Server Error - Please try again later.".to_owned(),
        },
    }
}

/// Renders a page's template with the page's title as its one variable.
pub fn render_page<F: Fn(RenderRequest) -> Result<String, RenderFailure>>(render: F, page: Page) -> (r:
    Result<String, RenderFailure>)
    requires
        forall|req: RenderRequest| #[trigger] render.requires((req,)),
    ensures
        renders_page(render, page, r),
{
    let title = page_title_text(page);
    let vars = [("title", title)];
    proof {
        reveal_strlit("title");
        assert(vars@ =~= seq![("title", title)]);
        assert(vars@.drop_last() =~= Seq::<(&str, &str)>::empty());
        assert(vars_map(vars@.drop_last()) == Map::<Seq<char>, Seq<char>>::empty());
        assert(vars@.last() == ("title", title));
        assert(vars_map(vars@) == vars_map(vars@.drop_last()).insert("title"@, title@));
        assert(vars_map(vars@) =~= page_vars(page));
    }
    render_template_with_vars(render, page_template_name(page), vars.as_slice())
}

/// The response for `page`: the page rendered from its own template with
/// its title as HTML with status 200, or the generic internal error where
/// rendering fails.
pub fn serve_page<F: Fn(RenderRequest) -> Result<String, RenderFailure>>(render: F, page: Page) -> (r:
    Response)
    requires
        forall|req: RenderRequest| #[trigger] render.requires((req,)),
    ensures
        exists|rendered: Result<String, RenderFailure>|
            renders_page(render, page, rendered) && response_view(r) == #[trigger] page_view(
                rendered,
            ),
{
    let rendered = render_page(render, page);
    page_response(&rendered)
}

/// The home page, rendered from "index.html.tera" with the title "Home".
pub fn index<F: Fn(RenderRequest) -> Result<String, RenderFailure>>(render: F) -> (r: Response)
    requires
        forall|req: RenderRequest| #[trigger] render.requires((req,)),
    ensures
        exists|rendered: Result<String, RenderFailure>|
            renders_page(render, Page::Index, rendered) && response_view(r)
                == #[trigger] page_view(rendered),
{
    serve_page(render, Page::Index)
}

/// The about page, rendered from "about.html.tera" with the title "About".
pub fn about<F: Fn(RenderRequest) -> Result<String, RenderFailure>>(render: F) -> (r: Response)
    requires
        forall|req: RenderRequest| #[trigger] render.requires((req,)),
    ensures
        exists|rendered: Result<String, RenderFailure>|
            renders_page(render, Page::About, rendered) && response_view(r)
                == #[trigger] page_view(rendered),
{
    serve_page(render, Page::About)
}

} // verus!
