use ghmd::error::ErrorData;
use ghmd::render::RateLimited;
use ghmd::server::{
    current_source, error_response, get, handle_request, page_response, rate_limit_body,
    rate_limited_response, remaining_wait, render_outcome_event, ContentType, PageOutcome,
    Response, Route, Source, StreamAction, StreamConnection, StreamEvent, StreamState,
};
use ghmd::watch::WatchedState;

const SECOND: u128 = 1_000_000_000;

fn waiting() -> StreamConnection {
    let mut connection = StreamConnection::new();
    assert_eq!(connection.event_stream(StreamEvent::Opened), StreamAction::Wait);
    connection
}

fn rendering() -> StreamConnection {
    let mut connection = waiting();
    connection.event_stream(StreamEvent::Changed(Ok("# Hello".to_string())));
    connection
}

#[test]
fn only_the_event_stream_type_asks_for_the_stream() {
    assert_eq!(handle_request(Some("text/event-stream")), Route::Stream);
    assert_eq!(handle_request(None), Route::Page);
    assert_eq!(handle_request(Some("text/html")), Route::Page);
    assert_eq!(handle_request(Some("")), Route::Page);
    assert_eq!(handle_request(Some("Text/Event-Stream")), Route::Page);
    assert_eq!(handle_request(Some("text/event-stream, text/html")), Route::Page);
    assert_eq!(handle_request(Some(" text/event-stream")), Route::Page);
}

#[test]
fn content_types_have_their_header_values() {
    assert_eq!(ContentType::Plain.as_str(), "text/plain");
    assert_eq!(ContentType::Html.as_str(), "text/html");
    assert_eq!(ContentType::EventStream.as_str(), "text/event-stream");
}

#[test]
fn a_request_is_answered_from_a_copy_of_the_state() {
    let content = WatchedState::Content("# Hello".to_string());
    assert_eq!(current_source(&content), Source::Markdown("# Hello".to_string()));
    let error = ErrorData {
        debug: "d".to_string(),
        display: "failed to read file".to_string(),
        source: Some(Box::new(ErrorData { debug: "e".to_string(), display: "gone".to_string(), source: None })),
    };
    let failed = WatchedState::Failed(ErrorData {
        debug: "d".to_string(),
        display: "failed to read file".to_string(),
        source: Some(Box::new(ErrorData { debug: "e".to_string(), display: "gone".to_string(), source: None })),
    });
    assert_eq!(current_source(&failed), Source::Broken(error));
}

#[test]
fn the_wait_is_the_time_until_the_reset() {
    assert_eq!(remaining_wait(100, 41 * SECOND), (59, 0));
    assert_eq!(remaining_wait(100, 41 * SECOND + 500_000_000), (58, 500_000_000));
    assert_eq!(remaining_wait(100, 99 * SECOND + 999_999_999), (0, 1));
    assert_eq!(remaining_wait(100, 0), (100, 0));
    assert_eq!(remaining_wait(u64::MAX, 1), (u64::MAX - 1, 999_999_999));
}

#[test]
fn there_is_no_wait_once_the_reset_is_past() {
    assert_eq!(remaining_wait(100, 100 * SECOND), (0, 0));
    assert_eq!(remaining_wait(100, 100 * SECOND + 1), (0, 0));
    assert_eq!(remaining_wait(0, 0), (0, 0));
    assert_eq!(remaining_wait(100, u128::MAX), (0, 0));
}

#[test]
fn the_rate_limit_body_names_quota_and_wait() {
    assert_eq!(
        rate_limit_body(60, "59s"),
        "Rate Limited\n============\nYou have used your quota of 60 requests and are now rate limitedby the GitHub API.\nYou may continue to send requests in 59s."
    );
}

#[test]
fn a_page_is_answered_with_status_200() {
    let response = get(PageOutcome::Page("<html><h1>Hello</h1></html>".to_string()), 0);
    assert_eq!(
        response,
        Response { status: 200, content_type: ContentType::Html, body: "<html><h1>Hello</h1></html>".to_string() }
    );
    assert_eq!(page_response("p".to_string()).status, 200);
}

#[test]
fn a_rate_limit_is_answered_with_status_403_and_the_wait() {
    let limited = RateLimited { limit: 60, reset: 1_700_000_060 };
    let now = 1_700_000_000 * SECOND + 500_000_000;
    let response = get(PageOutcome::RateLimited(limited), now);
    assert_eq!(response.status, 403);
    assert_eq!(response.content_type, ContentType::Plain);
    assert_eq!(
        response.body,
        "Rate Limited\n============\nYou have used your quota of 60 requests and are now rate limitedby the GitHub API.\nYou may continue to send requests in 59.5s."
    );
    assert_eq!(rate_limited_response(limited, now), response);
}

#[test]
fn a_rate_limit_that_is_over_shows_no_wait() {
    let limited = RateLimited { limit: 60, reset: 10 };
    let response = get(PageOutcome::RateLimited(limited), 11 * SECOND);
    assert_eq!(response.status, 403);
    assert!(response.body.ends_with("You may continue to send requests in 0ns."));
}

#[test]
fn a_rate_limited_request_mentions_the_quota_and_a_positive_wait() {
    let limited = RateLimited { limit: 60, reset: 2_000_000_000 };
    let response = get(PageOutcome::RateLimited(limited), 1_999_999_000 * SECOND);
    assert_eq!(response.status, 403);
    assert!(response.body.contains("60"));
    assert!(response.body.contains("send requests in 1000s."));
}

#[test]
fn a_failure_is_answered_with_status_500_and_its_report() {
    let report = "failed to render markdown\n\nCaused by:\n    connection refused";
    let response = get(PageOutcome::Failed(report.to_string()), 0);
    assert_eq!(response.status, 500);
    assert_eq!(response.content_type, ContentType::Plain);
    assert_eq!(
        response.body,
        "Internal Server Error\n=====================\nfailed to render markdown\n\nCaused by:\n    connection refused"
    );
    assert_eq!(error_response(report), response);
}

#[test]
fn rendered_markup_becomes_an_update_event() {
    assert_eq!(
        render_outcome_event(Ok(Ok("<h1>Hello</h1>\n<h1>World</h1>".to_string()))),
        "event: update\ndata: <h1>Hello</h1>\ndata: <h1>World</h1>\n\n"
    );
}

#[test]
fn a_rate_limit_becomes_an_event_with_a_json_payload() {
    let limited = RateLimited { limit: 60, reset: 1_700_000_000 };
    assert_eq!(
        render_outcome_event(Ok(Err(limited))),
        "event: rate_limited\ndata: {\"limit\":60,\"reset\":1700000000}\n\n"
    );
    let extreme = RateLimited { limit: u32::MAX, reset: u64::MAX };
    assert_eq!(
        render_outcome_event(Ok(Err(extreme))),
        "event: rate_limited\ndata: {\"limit\":4294967295,\"reset\":18446744073709551615}\n\n"
    );
    let zero = RateLimited { limit: 0, reset: 0 };
    assert_eq!(render_outcome_event(Ok(Err(zero))), "event: rate_limited\ndata: {\"limit\":0,\"reset\":0}\n\n");
}

#[test]
fn a_render_failure_becomes_an_event_with_its_report() {
    assert_eq!(
        render_outcome_event(Err("failed to render markdown\n\nCaused by:\n    Bad credentials".to_string())),
        "event: render_error\ndata: failed to render markdown\ndata: \ndata: Caused by:\ndata:     Bad credentials\n\n"
    );
}

#[test]
fn a_connection_waits_renders_emits_and_waits_again() {
    let mut connection = StreamConnection::new();
    assert_eq!(connection.current(), StreamState::Idle);
    assert_eq!(connection.event_stream(StreamEvent::Opened), StreamAction::Wait);
    assert_eq!(connection.current(), StreamState::WaitingForChange);
    assert_eq!(
        connection.event_stream(StreamEvent::Changed(Ok("# Hello".to_string()))),
        StreamAction::Render("# Hello".to_string())
    );
    assert_eq!(connection.current(), StreamState::Rendering);
    assert_eq!(
        connection.event_stream(StreamEvent::Rendered(Ok(Ok("<h1>Hello</h1>".to_string())))),
        StreamAction::Emit("event: update\ndata: <h1>Hello</h1>\n\n".to_string())
    );
    assert_eq!(connection.current(), StreamState::Emitting);
    assert_eq!(connection.event_stream(StreamEvent::Sent), StreamAction::Wait);
    assert_eq!(connection.current(), StreamState::WaitingForChange);
}

#[test]
fn an_unreadable_file_becomes_an_event_and_the_stream_stays_open() {
    let mut connection = waiting();
    let report = "failed to read file\n\nCaused by:\n    \"gone\"".to_string();
    assert_eq!(
        connection.event_stream(StreamEvent::Changed(Err(report))),
        StreamAction::Emit(
            "event: render_error\ndata: \"failed to read file\\n\\nCaused by:\\n    \\\"gone\\\"\"\n\n".to_string()
        )
    );
    assert_eq!(connection.current(), StreamState::Emitting);
    assert_eq!(connection.event_stream(StreamEvent::Sent), StreamAction::Wait);
    assert_eq!(connection.current(), StreamState::WaitingForChange);
}

#[test]
fn a_rate_limit_and_a_failure_keep_the_stream_open() {
    let mut connection = rendering();
    let limited = RateLimited { limit: 60, reset: 1_700_000_000 };
    assert_eq!(
        connection.event_stream(StreamEvent::Rendered(Ok(Err(limited)))),
        StreamAction::Emit("event: rate_limited\ndata: {\"limit\":60,\"reset\":1700000000}\n\n".to_string())
    );
    assert_eq!(connection.event_stream(StreamEvent::Sent), StreamAction::Wait);
    connection.event_stream(StreamEvent::Changed(Ok("x".to_string())));
    assert_eq!(
        connection.event_stream(StreamEvent::Rendered(Err("boom".to_string()))),
        StreamAction::Emit("event: render_error\ndata: boom\n\n".to_string())
    );
    assert_eq!(connection.event_stream(StreamEvent::Sent), StreamAction::Wait);
    assert_eq!(connection.current(), StreamState::WaitingForChange);
}

#[test]
fn shutdown_closes_an_open_stream_in_good_order() {
    for mut connection in [StreamConnection::new(), waiting(), rendering()] {
        assert_eq!(connection.event_stream(StreamEvent::Shutdown), StreamAction::Close);
        assert_eq!(connection.current(), StreamState::Closed);
        assert_eq!(connection.event_stream(StreamEvent::Changed(Ok("x".to_string()))), StreamAction::Nothing);
        assert_eq!(connection.event_stream(StreamEvent::Shutdown), StreamAction::Nothing);
        assert_eq!(connection.current(), StreamState::Closed);
    }
}

#[test]
fn a_client_that_left_ends_the_connection() {
    let mut connection = rendering();
    assert_eq!(connection.event_stream(StreamEvent::Disconnected), StreamAction::Abandon);
    assert_eq!(connection.current(), StreamState::Closed);
    assert_eq!(connection.event_stream(StreamEvent::Sent), StreamAction::Nothing);
}

#[test]
fn the_stream_ends_when_the_change_source_is_gone() {
    let mut connection = waiting();
    assert_eq!(connection.event_stream(StreamEvent::SourceClosed), StreamAction::Close);
    assert_eq!(connection.current(), StreamState::Closed);
}

#[test]
fn an_event_that_the_state_does_not_expect_changes_nothing() {
    let mut idle = StreamConnection::new();
    assert_eq!(idle.event_stream(StreamEvent::Sent), StreamAction::Nothing);
    assert_eq!(idle.event_stream(StreamEvent::Changed(Ok("x".to_string()))), StreamAction::Nothing);
    assert_eq!(idle.event_stream(StreamEvent::SourceClosed), StreamAction::Nothing);
    assert_eq!(idle.current(), StreamState::Idle);
    let mut waiting = waiting();
    assert_eq!(waiting.event_stream(StreamEvent::Opened), StreamAction::Nothing);
    assert_eq!(waiting.event_stream(StreamEvent::Rendered(Ok(Ok("x".to_string())))), StreamAction::Nothing);
    assert_eq!(waiting.current(), StreamState::WaitingForChange);
    let mut rendering = rendering();
    assert_eq!(rendering.event_stream(StreamEvent::Changed(Ok("y".to_string()))), StreamAction::Nothing);
    assert_eq!(rendering.event_stream(StreamEvent::SourceClosed), StreamAction::Nothing);
    assert_eq!(rendering.current(), StreamState::Rendering);
    rendering.event_stream(StreamEvent::Rendered(Ok(Ok("x".to_string()))));
    assert_eq!(rendering.event_stream(StreamEvent::Rendered(Ok(Ok("x".to_string())))), StreamAction::Nothing);
    assert_eq!(rendering.current(), StreamState::Emitting);
}
