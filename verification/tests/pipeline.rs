use ghmd::icons::{populate, required_icons, IconReply, IconStep, Octicons};
use ghmd::render::{markup, on_response, RateLimited, RenderError, RenderStep, Renderer, ReplyStep};
use ghmd::server::{
    current_source, get, PageOutcome, Response, Source, StreamAction, StreamConnection, StreamEvent,
};
use ghmd::templater::{Liveness, Templater, Theme};
use ghmd::watch::{ChangeSource, WatchedState};

struct External {
    calls: usize,
    status: u16,
    limit: Option<Vec<u8>>,
    reset: Option<Vec<u8>>,
    body: String,
}

impl External {
    fn answering(body: &str) -> External {
        External { calls: 0, status: 200, limit: None, reset: None, body: body.to_string() }
    }
}

fn render(
    renderer: &mut Renderer,
    icons: &mut Octicons,
    external: &mut External,
    text: &str,
) -> Result<Result<String, RateLimited>, RenderError> {
    let miss = match renderer.begin(text) {
        RenderStep::Cached(artifact) => return Ok(Ok(artifact)),
        RenderStep::Fetch(miss) => miss,
    };
    external.calls += 1;
    let outcome = match on_response(external.status, external.limit.as_deref(), external.reset.as_deref()) {
        ReplyStep::RateLimited(limited) => Ok(Err(limited)),
        ReplyStep::Failed(fault) => Err(RenderError::Response(fault)),
        ReplyStep::ReadRejection => Err(RenderError::Rejected(external.body.clone())),
        ReplyStep::ReadMarkup => match markup(Ok(external.body.clone())) {
            Err(error) => Err(error),
            Ok(raw) => {
                let mut artwork = Vec::new();
                for name in required_icons(&raw) {
                    artwork.push(match icons.get(&name) {
                        IconStep::Cached(svg) => Some(svg),
                        IconStep::Fetch(miss) => {
                            let reply = IconReply::Answered { status: 200, body: Some(format!("<svg>{}</svg>", name)) };
                            miss.settle(reply)
                        },
                    });
                }
                Ok(Ok(populate(&raw, &artwork)))
            },
        },
    };
    miss.settle(outcome)
}

fn one_shot(
    state: &WatchedState,
    renderer: &mut Renderer,
    icons: &mut Octicons,
    external: &mut External,
    templater: &Templater,
    now: u128,
) -> Response {
    let text = match current_source(state) {
        Source::Markdown(text) => text,
        Source::Broken(error) => return get(PageOutcome::Failed(error.display), now),
    };
    let outcome = match render(renderer, icons, external, &text) {
        Ok(Ok(html)) => match templater.generate(&html, Liveness::Live) {
            Ok(page) => PageOutcome::Page(page),
            Err(error) => PageOutcome::Failed(error.display),
        },
        Ok(Err(limited)) => PageOutcome::RateLimited(limited),
        Err(error) => PageOutcome::Failed(format!("{:?}", error)),
    };
    get(outcome, now)
}

fn templater() -> Templater {
    Templater::new("readme.md".to_string(), Theme::default()).unwrap()
}

#[test]
fn a_page_shows_the_file_and_follows_its_edits() {
    let (mut source, mut state) = ChangeSource::new("# Hello".to_string());
    let mut renderer = Renderer::new();
    let mut icons = Octicons::new();
    let templater = templater();

    let mut external = External::answering("<h1>Hello</h1>");
    let first = one_shot(&state, &mut renderer, &mut icons, &mut external, &templater, 0);
    assert_eq!(first.status, 200);
    assert!(first.body.contains("<h1>Hello</h1>"));
    assert!(first.body.contains("<title>readme.md</title>"));

    state = source.observe(Ok("# Hello\n# World".to_string())).unwrap();
    assert!(source.published(true));
    let mut external = External::answering("<h1>Hello</h1>\n<h1>World</h1>");
    let second = one_shot(&state, &mut renderer, &mut icons, &mut external, &templater, 0);
    assert_eq!(second.status, 200);
    assert!(second.body.contains("<h1>Hello</h1>\n<h1>World</h1>"));
    assert_eq!(external.calls, 1);
    assert!(!source.is_released());
}

#[test]
fn a_rate_limited_renderer_is_reported_with_status_403() {
    let (_, state) = ChangeSource::new("# Hello".to_string());
    let mut renderer = Renderer::new();
    let mut icons = Octicons::new();
    let mut external = External {
        calls: 0,
        status: 403,
        limit: Some(b"60".to_vec()),
        reset: Some(b"2000000000".to_vec()),
        body: String::new(),
    };
    let now = 1_999_999_940u128 * 1_000_000_000;
    let response = one_shot(&state, &mut renderer, &mut icons, &mut external, &templater(), now);
    assert_eq!(response.status, 403);
    assert!(response.body.contains("60 requests"));
    assert!(response.body.contains("in 60s."));
    assert_eq!(renderer.cached(), 0);
    one_shot(&state, &mut renderer, &mut icons, &mut external, &templater(), now);
    assert_eq!(external.calls, 2);
}

#[test]
fn the_same_content_is_rendered_once_for_all_requests() {
    let (_, state) = ChangeSource::new("# Hello".to_string());
    let mut renderer = Renderer::new();
    let mut icons = Octicons::new();
    let mut external = External::answering("<h1>Hello</h1>");
    let templater = templater();
    let first = one_shot(&state, &mut renderer, &mut icons, &mut external, &templater, 0);
    let second = one_shot(&state, &mut renderer, &mut icons, &mut external, &templater, 0);
    assert_eq!(first.body.as_bytes(), second.body.as_bytes());
    assert_eq!(external.calls, 1);
}

#[test]
fn an_unreadable_file_is_reported_with_status_500() {
    let (mut source, _) = ChangeSource::new("# Hello".to_string());
    let error = ghmd::error::ErrorData {
        debug: "Os { code: 13 }".to_string(),
        display: "failed to read file".to_string(),
        source: None,
    };
    let state = source.observe(Err(error)).unwrap();
    let mut external = External::answering("");
    let response = one_shot(&state, &mut Renderer::new(), &mut Octicons::new(), &mut external, &templater(), 0);
    assert_eq!(response.status, 500);
    assert_eq!(response.body, "Internal Server Error\n=====================\nfailed to read file");
    assert_eq!(external.calls, 0);
}

#[test]
fn icons_are_fetched_once_and_spliced_in() {
    let mut renderer = Renderer::new();
    let mut icons = Octicons::new();
    let raw = "<p><span class=\"octicon octicon-link\"></span><span class=\"octicon octicon-link\"></span></p>";
    let mut external = External::answering(raw);
    let html = render(&mut renderer, &mut icons, &mut external, "text").unwrap().unwrap();
    assert_eq!(
        html,
        "<p><span class=\"octicon octicon-link\"><svg>link-16</svg></span><span class=\"octicon octicon-link\"><svg>link-16</svg></span></p>"
    );
    assert_eq!(icons.len(), 1);
}

#[test]
fn a_stream_gets_one_update_for_each_edit_that_changes_the_content() {
    let (mut source, _) = ChangeSource::new("# Hello".to_string());
    let mut renderer = Renderer::new();
    let mut icons = Octicons::new();
    let mut connection = StreamConnection::new();
    assert_eq!(connection.event_stream(StreamEvent::Opened), StreamAction::Wait);

    let mut events = Vec::new();
    let edits = ["# Hello", "# Hello\n# World", "# Hello\n# World", "# Hello\n# World", "# Hello"];
    for edit in edits {
        let state = match source.observe(Ok(edit.to_string())) {
            Some(state) => state,
            None => continue,
        };
        assert!(source.published(true));
        let changed = match state {
            WatchedState::Content(text) => Ok(text),
            WatchedState::Failed(error) => Err(error.display),
        };
        let text = match connection.event_stream(StreamEvent::Changed(changed)) {
            StreamAction::Render(text) => text,
            other => panic!("unexpected action {:?}", other),
        };
        let mut external = External::answering(&format!("<pre>{}</pre>", text));
        let outcome = match render(&mut renderer, &mut icons, &mut external, &text) {
            Ok(outcome) => Ok(outcome),
            Err(error) => Err(format!("{:?}", error)),
        };
        match connection.event_stream(StreamEvent::Rendered(outcome)) {
            StreamAction::Emit(event) => events.push(event),
            other => panic!("unexpected action {:?}", other),
        }
        assert_eq!(connection.event_stream(StreamEvent::Sent), StreamAction::Wait);
    }
    assert_eq!(
        events,
        vec![
            "event: update\ndata: <pre># Hello\ndata: # World</pre>\n\n".to_string(),
            "event: update\ndata: <pre># Hello</pre>\n\n".to_string(),
        ]
    );
}

#[test]
fn shutdown_ends_the_stream_and_the_watch_is_released() {
    let (mut source, _) = ChangeSource::new("# Hello".to_string());
    let mut connection = StreamConnection::new();
    connection.event_stream(StreamEvent::Opened);
    assert_eq!(connection.event_stream(StreamEvent::Shutdown), StreamAction::Close);
    assert!(source.observe(Ok("# Bye".to_string())).is_some());
    assert!(!source.published(false));
    assert!(source.is_released());
    assert_eq!(source.observe(Ok("# Later".to_string())), None);
}
