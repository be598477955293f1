use site_server::errors::{
    error_handlers, error_page_response, get_error_response, handle_error, not_found,
    status_code_text, ErrorHandlers,
};
use site_server::pages::{about, index, page_response, ContentKind, Page, render_page};
use site_server::paths::normalize_request_path;
use site_server::render::{render_request, render_template_with_vars, template_file_name, RenderFailure, RenderRequest};
use site_server::startup::{
    environment_or_default, is_production, names_production, startup_plan, ListenTarget,
    StartupError, PORT,
};
use site_server::state::State;

fn site_templates() -> tera::Tera {
    let mut t = tera::Tera::default();
    t.add_raw_template("index.html.tera", "<title>{{ title }}</title>").unwrap();
    t.add_raw_template("about.html.tera", "<h1>{{ title }}</h1>").unwrap();
    t.add_raw_template("error/404.html.tera", "<p>{{ status_code }}: {{ error }}</p>").unwrap();
    t
}

type Renderer = fn(RenderRequest) -> Result<String, RenderFailure>;

fn renderer(t: &tera::Tera) -> impl Fn(RenderRequest) -> Result<String, RenderFailure> + '_ {
    move |req: RenderRequest| {
        t.render(&req.template, &req.context)
            .map_err(|e| RenderFailure { detail: e.to_string() })
    }
}

fn owned(v: &[&str]) -> Option<Vec<String>> {
    Some(v.iter().map(|s| s.to_string()).collect())
}

#[test]
fn plain_path_keeps_its_names() {
    assert_eq!(normalize_request_path("css/site.css"), owned(&["css", "site.css"]));
}

#[test]
fn empty_and_dot_segments_are_skipped() {
    assert_eq!(normalize_request_path("/a/./b//c/"), owned(&["a", "b", "c"]));
    assert_eq!(normalize_request_path(""), owned(&[]));
}

#[test]
fn parent_segment_inside_the_root_steps_back() {
    assert_eq!(normalize_request_path("a/../b.txt"), owned(&["b.txt"]));
    assert_eq!(normalize_request_path("a/b/../../c"), owned(&["c"]));
}

#[test]
fn climbing_above_the_root_is_refused() {
    assert_eq!(normalize_request_path("../secret.txt"), None);
    assert_eq!(normalize_request_path("/../secret.txt"), None);
    assert_eq!(normalize_request_path("a/../../etc/passwd"), None);
    assert_eq!(normalize_request_path(".."), None);
}

#[test]
fn dots_within_a_name_are_a_name() {
    assert_eq!(normalize_request_path("..."), owned(&["..."]));
    assert_eq!(normalize_request_path("..a/.b"), owned(&["..a", ".b"]));
}

#[test]
fn public_file_is_under_the_public_directory() {
    let state = State::new("/srv/site/public".to_string());
    assert_eq!(
        state.get_from_public("css/site.css"),
        Some("/srv/site/public/css/site.css".to_string())
    );
    assert_eq!(state.get_from_public("missing.txt"), Some("/srv/site/public/missing.txt".to_string()));
    assert_eq!(state.get_from_public(""), Some("/srv/site/public/".to_string()));
}

#[test]
fn traversal_never_reaches_outside_the_public_directory() {
    let state = State::new("/srv/site/public".to_string());
    assert_eq!(state.get_from_public("/../secret.txt"), None);
    assert_eq!(state.get_from_public("img/../../secret.txt"), None);
    assert_eq!(
        state.get_from_public("img/../secret.txt"),
        Some("/srv/site/public/secret.txt".to_string())
    );
}

#[test]
fn repeated_requests_give_the_same_file() {
    let state = State::new("public".to_string());
    let first = state.get_from_public("a/b.png");
    let second = state.get_from_public("a/b.png");
    assert_eq!(first, second);
    assert_eq!(first, Some("public/a/b.png".to_string()));
}

#[test]
fn template_file_has_the_suffix() {
    assert_eq!(template_file_name("index"), "index.html.tera");
    assert_eq!(template_file_name(""), ".html.tera");
}

#[test]
fn index_renders_home_title() {
    let t = site_templates();
    let r = index(renderer(&t));
    assert_eq!(r.status, 200);
    assert_eq!(r.content, ContentKind::Html);
    assert_eq!(r.body, "<title>Home</title>");
}

#[test]
fn about_renders_about_title() {
    let t = site_templates();
    let r = about(renderer(&t));
    assert_eq!(r.status, 200);
    assert_eq!(r.content, ContentKind::Html);
    assert!(r.body.contains("About"));
    assert_eq!(r.body, "<h1>About</h1>");
}

#[test]
fn repeated_page_requests_are_identical() {
    let t = site_templates();
    assert_eq!(index(renderer(&t)).body, index(renderer(&t)).body);
    assert_eq!(about(renderer(&t)).body, about(renderer(&t)).body);
}

#[test]
fn missing_page_template_is_a_generic_internal_error() {
    let t = tera::Tera::default();
    let r = index(renderer(&t));
    assert_eq!(r.status, 500);
    assert_eq!(r.content, ContentKind::PlainText);
    assert_eq!(r.body, "Internal Server Error - Please try again later.");
    assert!(render_page(renderer(&t), Page::About).is_err());
}

#[test]
fn render_failure_keeps_its_reason() {
    let t = tera::Tera::default();
    match render_template_with_vars(renderer(&t), "index", &[("title", "Home")]) {
        Err(failure) => assert!(failure.detail.contains("index.html.tera")),
        Ok(_) => panic!("rendered a template that is not there"),
    }
}

#[test]
fn render_with_vars_sets_every_variable() {
    let mut t = tera::Tera::default();
    t.add_raw_template("two.html.tera", "{{ a }}-{{ b }}").unwrap();
    let body = render_template_with_vars(renderer(&t), "two", &[("a", "x"), ("b", "y"), ("a", "z")]);
    assert_eq!(body.ok(), Some("z-y".to_string()));
}

#[test]
fn page_response_wraps_a_rendered_page() {
    let r = page_response(&Ok("<p>hi</p>".to_string()));
    assert_eq!((r.status, r.content, r.body.as_str()), (200, ContentKind::Html, "<p>hi</p>"));
    let e = page_response(&Err(RenderFailure { detail: "boom".to_string() }));
    assert_eq!(e.status, 500);
    assert_eq!(e.content, ContentKind::PlainText);
    assert!(!e.body.contains("boom"));
}

#[test]
fn status_code_text_has_three_digits() {
    assert_eq!(status_code_text(404), "404");
    assert_eq!(status_code_text(200), "200");
    assert_eq!(status_code_text(503), "503");
}

#[test]
fn not_found_renders_the_error_page() {
    let t = site_templates();
    let r = not_found(Some(renderer(&t)));
    assert_eq!(r.status, 404);
    assert_eq!(r.content, ContentKind::Html);
    assert_eq!(r.body, "<p>404: Page not found</p>");
}

#[test]
fn not_found_falls_back_to_plain_text() {
    let t = tera::Tera::default();
    let r = not_found(Some(renderer(&t)));
    assert_eq!(r.status, 404);
    assert_eq!(r.content, ContentKind::PlainText);
    assert_eq!(r.body, "Page not found");
    let r = not_found(None::<Renderer>);
    assert_eq!((r.status, r.content, r.body.as_str()), (404, ContentKind::PlainText, "Page not found"));
}

#[test]
fn broken_error_template_falls_back_to_plain_text() {
    let mut t = tera::Tera::default();
    t.add_raw_template("error/404.html.tera", "{{ missing_variable }}").unwrap();
    let r = get_error_response(Some(renderer(&t)), 404, "Page not found");
    assert_eq!((r.status, r.content, r.body.as_str()), (404, ContentKind::PlainText, "Page not found"));
}

#[test]
fn error_page_response_keeps_the_status() {
    let r = error_page_response(410, "Gone", &Ok("<p>gone</p>".to_string()));
    assert_eq!((r.status, r.content, r.body.as_str()), (410, ContentKind::Html, "<p>gone</p>"));
    let r = error_page_response(410, "Gone", &Err(RenderFailure { detail: "no template".to_string() }));
    assert_eq!((r.status, r.content, r.body.as_str()), (410, ContentKind::PlainText, "Gone"));
}

#[test]
fn error_handlers_answer_not_found_only() {
    let h = error_handlers();
    assert_eq!(h.message_for(404), Some("Page not found".to_string()));
    assert_eq!(h.message_for(500), None);
    let t = site_templates();
    assert!(handle_error(&h, Some(renderer(&t)), 500).is_none());
    assert!(handle_error(&h, Some(renderer(&t)), 200).is_none());
    let r = handle_error(&h, Some(renderer(&t)), 404).unwrap();
    assert_eq!((r.status, r.content, r.body.as_str()), (404, ContentKind::Html, "<p>404: Page not found</p>"));
}

#[test]
fn later_handler_replaces_earlier() {
    let h = ErrorHandlers::new().handler(500, "first").handler(403, "Forbidden").handler(500, "second");
    assert_eq!(h.message_for(500), Some("second".to_string()));
    assert_eq!(h.message_for(403), Some("Forbidden".to_string()));
    assert_eq!(ErrorHandlers::new().message_for(404), None);
    let r = handle_error(&h, None::<Renderer>, 403).unwrap();
    assert_eq!((r.status, r.content, r.body.as_str()), (403, ContentKind::PlainText, "Forbidden"));
}

#[test]
fn scenario_about_missing_file_and_traversal() {
    let t = site_templates();
    let r = about(renderer(&t));
    assert_eq!(r.status, 200);
    assert!(r.body.contains("About"));

    let state = State::new("public".to_string());
    assert_eq!(state.get_from_public("/missing.txt"), Some("public/missing.txt".to_string()));
    let r = not_found(Some(renderer(&t)));
    assert_eq!(r.status, 404);
    assert!(r.body.contains("Page not found"));

    assert_eq!(state.get_from_public("/../secret.txt"), None);
}

#[test]
fn production_is_found_in_any_case() {
    assert!(is_production("production"));
    assert!(is_production("PROD"));
    assert!(is_production("pre-Prod-2"));
    assert!(!is_production("development"));
    assert!(!is_production("pro"));
    assert!(!is_production(""));
    assert!(names_production("preprod"));
    assert!(!names_production("PROD"));
}

#[test]
fn environment_defaults_to_development() {
    assert_eq!(environment_or_default(None), "development");
    assert_eq!(environment_or_default(Some("production".to_string())), "production");
}

#[test]
fn startup_fails_without_directories() {
    assert_eq!(
        startup_plan(false, true, "development", None).err(),
        Some(StartupError::TemplatesDirMissing)
    );
    assert_eq!(
        startup_plan(false, false, "production", Some("/run/s.sock".to_string())).err(),
        Some(StartupError::TemplatesDirMissing)
    );
    assert_eq!(
        startup_plan(true, false, "development", None).err(),
        Some(StartupError::PublicDirMissing)
    );
}

#[test]
fn startup_picks_the_listen_target() {
    match startup_plan(true, true, "development", None) {
        Ok(ListenTarget::Loopback { port }) => assert_eq!(port, PORT),
        _ => panic!("expected loopback"),
    }
    assert_eq!(PORT, 8080);
    match startup_plan(true, true, "Production", Some("/run/site.sock".to_string())) {
        Ok(ListenTarget::UnixSocket { path }) => assert_eq!(path, "/run/site.sock"),
        _ => panic!("expected a unix socket"),
    }
    assert_eq!(
        startup_plan(true, true, "prod", None).err(),
        Some(StartupError::SocketNotSet)
    );
}

#[test]
fn pages_ask_for_their_own_template_and_title() {
    let seen = std::cell::RefCell::new(Vec::new());
    let record = |req: RenderRequest| {
        let body = tera::Tera::one_off("{{ title }}", &req.context, false).unwrap();
        seen.borrow_mut().push(req.template.clone());
        Ok(body)
    };
    let r = index(&record);
    assert_eq!((r.status, r.body.as_str()), (200, "Home"));
    let r = about(&record);
    assert_eq!((r.status, r.body.as_str()), (200, "About"));
    assert_eq!(*seen.borrow(), vec!["index.html.tera".to_string(), "about.html.tera".to_string()]);
}

#[test]
fn error_page_asks_for_its_template_and_variables() {
    let record = |req: RenderRequest| {
        assert_eq!(req.template, "error/404.html.tera");
        Ok(tera::Tera::one_off("{{ error }}/{{ status_code }}", &req.context, false).unwrap())
    };
    let r = not_found(Some(record));
    assert_eq!((r.status, r.content, r.body.as_str()), (404, ContentKind::Html, "Page not found/404"));
}

#[test]
fn render_request_holds_exactly_the_variables() {
    let req = render_request("x.html.tera", &[("a", "1"), ("b", "2")]);
    assert_eq!(req.template, "x.html.tera");
    let out = tera::Tera::one_off("{{ a }}{{ b }}", &req.context, false).unwrap();
    assert_eq!(out, "12");
    assert!(!req.context.contains_key("c"));
}
