//! Error pages: a table from status codes to messages, and the rendered
//! page, or plain text where rendering fails, that replaces the body of a
//! response whose status is in the table.
use vstd::prelude::*;
use vstd::string::*;

use crate::pages::{not_found_text, response_view, ContentKind, Response, NOT_FOUND};
use crate::render::{asks_for, render_file, vars_map, RenderFailure, RenderRequest};

verus! {

pub open spec fn decimal_digits() -> Seq<char> {
    seq!['0', '1', '2', '3', '4', '5', '6', '7', '8', '9']
}

/// The three decimal digits of a status code.
pub open spec fn status_text(status: u16) -> Seq<char> {
    seq![
        decimal_digits()[status as int / 100],
        decimal_digits()[(status as int / 10) % 10],
        decimal_digits()[status as int % 10],
    ]
}

/// Whether `status` is a valid HTTP status code: three decimal digits.
pub open spec fn is_status_code(status: u16) -> bool {
    100 <= status <= 999
}

fn digit(d: u16) -> (r: &'static str)
    requires
        d < 10,
    ensures
        r@ == seq![decimal_digits()[d as int]],
{
    let all = "0123456789";
    proof {
        reveal_strlit("0123456789");
        assert(all@ =~= decimal_digits());
    }
    let r = all.substring_char(d as usize, d as usize + 1);
    assert(r@ =~= seq![decimal_digits()[d as int]]);
    r
}

pub fn status_code_text(status: u16) -> (r: String)
    requires
        is_status_code(status),
    ensures
        r@ == status_text(status),
{
    let mut text = digit(status / 100).to_owned();
    text.append(digit((status / 10) % 10));
    text.append(digit(status % 10));
    assert(text@ =~= status_text(status));
    text
}

/// The template file of the error page.
pub open spec fn error_template() -> Seq<char> {
    "error/404.html.tera"@
}

/// The variables the error page is rendered with: the message, and the
/// status code as three digits.
pub open spec fn error_vars(status: u16, error: Seq<char>) -> Map<Seq<char>, Seq<char>> {
    map!["error"@ => error, "status_code"@ => status_text(status)]
}

/// The response that replaces an error response's body, from the outcome
/// of rendering the error page.
pub open spec fn error_view(status: u16, error: Seq<char>, rendered: Result<String, RenderFailure>) -> (
    u16,
    ContentKind,
    Seq<char>,
) {
    match rendered {
        Ok(body) => (status, ContentKind::Html, body@),
        Err(_) => (status, ContentKind::PlainText, error),
    }
}

/// `r` is the response to an error with `status` and message `error`: with
/// no renderer, the message as plain text; else built from what `render`
/// gives for the error page with exactly its variables.
pub open spec fn answers_error<F: Fn(RenderRequest) -> Result<String, RenderFailure>>(
    render: Option<F>,
    status: u16,
    error: Seq<char>,
    r: Response,
) -> bool {
    match render {
        None => response_view(r) == (status, ContentKind::PlainText, error),
        Some(f) => exists|req: RenderRequest, rendered: Result<String, RenderFailure>|
            asks_for(req, error_template(), error_vars(status, error)) && #[trigger] f.ensures(
                (req,),
                rendered,
            ) && response_view(r) == error_view(status, error, rendered),
    }
}

/// The response that replaces an error response's body: the rendered error
/// page as HTML where it rendered, else the message as plain text. The
/// status stays.
pub fn error_page_response(status: u16, error: &str, rendered: &Result<String, RenderFailure>) -> (r:
    Response)
    ensures
        response_view(r) == error_view(status, error@, *rendered),
{
    match rendered {
        Ok(body) => Response { status, content: ContentKind::Html, body: body.clone() },
        Err(_) => Response { status, content: ContentKind::PlainText, body: error.to_owned() },
    }
}

/// Renders the error page for `status` with the message `error`, where a
/// renderer is at hand.
pub fn get_error_response<F: Fn(RenderRequest) -> Result<String, RenderFailure>>(
    render: Option<F>,
    status: u16,
    error: &str,
) -> (r: Response)
    requires
        is_status_code(status),
        render is Some ==> forall|req: RenderRequest| #[trigger] render.unwrap().requires((req,)),
    ensures
        r.status == status,
        answers_error(render, status, error@, r),
{
    match render {
        Some(f) => {
            let code = status_code_text(status);
            let code_text = code.as_str();
            let vars = [("error", error), ("status_code", code_text)];
            proof {
                reveal_strlit("error");
                reveal_strlit("status_code");
                assert(vars@ =~= seq![("error", error), ("status_code", code_text)]);
                assert(vars@.drop_last().drop_last() =~= Seq::<(&str, &str)>::empty());
                assert(vars@.drop_last() =~= seq![("error", error)]);
                let first = vars@.drop_last();
                assert(vars_map(first.drop_last()) == Map::<Seq<char>, Seq<char>>::empty());
                assert(vars_map(first) == vars_map(first.drop_last()).insert("error"@, error@));
                assert(vars_map(vars@) == vars_map(first).insert("status_code"@, code_text@));
                assert(vars_map(vars@) =~= error_vars(status, error@));
            }
            let rendered = render_file(f, "error/404.html.tera", vars.as_slice());
            error_page_response(status, error, &rendered)
        },
        None => error_page_response(status, error, &Err(RenderFailure { detail: String::new() })),
    }
}

/// The page for a request that found nothing: status 404, with the error
/// page rendered with the message "Page not found", or that message as
/// plain text.
pub fn not_found<F: Fn(RenderRequest) -> Result<String, RenderFailure>>(render: Option<F>) -> (r:
    Response)
    requires
        render is Some ==> forall|req: RenderRequest| #[trigger] render.unwrap().requires((req,)),
    ensures
        r.status == NOT_FOUND,
        answers_error(render, NOT_FOUND, not_found_text(), r),
{
    get_error_response(render, NOT_FOUND, "Page not found")
}

/// The messages that a list of registrations gives each status, a later
/// registration replacing an earlier one for the same status.
pub open spec fn handlers_map(entries: Seq<(u16, String)>) -> Map<u16, Seq<char>>
    decreases entries.len(),
{
    if entries.len() == 0 {
        Map::empty()
    } else {
        handlers_map(entries.drop_last()).insert(entries.last().0, entries.last().1@)
    }
}

/// The statuses whose responses get an error page, each with its message.
pub struct ErrorHandlers {
    entries: Vec<(u16, String)>,
}

impl View for ErrorHandlers {
    type V = Map<u16, Seq<char>>;

    closed spec fn view(&self) -> Map<u16, Seq<char>> {
        handlers_map(self.entries@)
    }
}

impl ErrorHandlers {
    /// A table with no status in it.
    pub fn new() -> (r: Self)
        ensures
            r@ == Map::<u16, Seq<char>>::empty(),
    {
        let r = ErrorHandlers { entries: Vec::new() };
        assert(r@ =~= Map::<u16, Seq<char>>::empty());
        r
    }

    /// The table with `status` now answered by an error page with `message`.
    pub fn handler(self, status: u16, message: &str) -> (r: Self)
        ensures
            r@ == self@.insert(status, message@),
    {
        let mut entries = self.entries;
        let ghost before = entries@;
        entries.push((status, message.to_owned()));
        assert(entries@.drop_last() =~= before);
        ErrorHandlers { entries }
    }

    /// The message for `status`, where it has an error page.
    pub fn message_for(&self, status: u16) -> (r: Option<String>)
        ensures
            r is Some <==> self@.contains_key(status),
            r is Some ==> r.unwrap()@ == self@[status],
    {
        let n = self.entries.len();
        let mut found: Option<String> = None;
        let mut i: usize = 0;
        while i < n
            invariant
                n == self.entries@.len(),
                i <= n,
                found is Some <==> handlers_map(self.entries@.take(i as int)).contains_key(status),
                found is Some ==> found.unwrap()@ == handlers_map(self.entries@.take(i as int))[status],
            decreases n - i,
        {
            proof {
                assert(self.entries@.take(i + 1).drop_last() =~= self.entries@.take(i as int));
            }
            if self.entries[i].0 == status {
                found = Some(self.entries[i].1.clone());
            }
            i = i + 1;
        }
        proof {
            assert(self.entries@.take(n as int) =~= self.entries@);
        }
        found
    }
}

/// The error pages of the site: one for a request that found nothing.
pub fn error_handlers() -> (r: ErrorHandlers)
    ensures
        r@ == map![NOT_FOUND => not_found_text()],
{
    let r = ErrorHandlers::new().handler(NOT_FOUND, "Page not found");
    assert(r@ =~= map![NOT_FOUND => not_found_text()]);
    r
}

/// The response that replaces one with status `status`: `None` where the
/// status has no error page and the response passes unchanged, else the
/// error page with the status's message.
pub fn handle_error<F: Fn(RenderRequest) -> Result<String, RenderFailure>>(
    handlers: &ErrorHandlers,
    render: Option<F>,
    status: u16,
) -> (r: Option<Response>)
    requires
        is_status_code(status),
        render is Some ==> forall|req: RenderRequest| #[trigger] render.unwrap().requires((req,)),
    ensures
        r is None <==> !handlers@.contains_key(status),
        r is Some ==> r.unwrap().status == status && answers_error(
            render,
            status,
            handlers@[status],
            r.unwrap(),
        ),
{
    match handlers.message_for(status) {
        None => None,
        Some(message) => Some(get_error_response(render, status, message.as_str())),
    }
}

} // verus!
