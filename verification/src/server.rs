//! The delivery server's decisions: which kind of answer a request gets,
//! what a one-shot answer holds, and how a streaming connection moves from
//! one change of the watched file to the next.
//!
//! Nothing here touches a socket. The caller accepts connections, waits for
//! changes and calls the renderer; these functions say what to do with what
//! came back.

use crate::error::{clone_error, ErrorData};
use crate::render::RateLimited;
use crate::sse::{event_text, sse};
use crate::text::{decimal, push_decimal, push_str, string_of, text_eq};
use crate::watch::{StateView, WatchedState};
use vstd::prelude::*;

verus! {

/// How a duration prints for a developer: its `Debug` form, such as `59s` or
/// `1.5ms`.
pub uninterp spec fn duration_debug(secs: u64, nanos: u32) -> Seq<char>;

/// How a text prints for a developer: its `Debug` form, in double quotes and
/// with line breaks, quotes and the like escaped.
pub uninterp spec fn text_debug(text: Seq<char>) -> Seq<char>;

/// Formats `std::time::Duration::new(secs, nanos)` with `{:?}`. The contract
/// names the text; it depends on the two numbers alone. `Duration::new`
/// panics where the nanoseconds carry over into seconds that overflow, which
/// the precondition rules out.
#[verifier::external_body]
fn format_duration(secs: u64, nanos: u32) -> (text: String)
    requires
        nanos < 1_000_000_000,
    ensures
        text@ == duration_debug(secs, nanos),
{
    format!("{:?}", std::time::Duration::new(secs, nanos))
}

/// Formats a `str` with `{:?}`. The contract names the text; it depends on
/// the characters of `text` alone.
#[verifier::external_body]
fn format_debug(text: &str) -> (quoted: String)
    ensures
        quoted@ == text_debug(text@),
{
    format!("{:?}", text)
}

/// The payload of a `rate_limited` event: a JSON object with the quota and
/// the reset time in seconds since the Unix epoch, without blanks.
pub open spec fn rate_limit_payload(limited: RateLimited) -> Seq<char> {
    "{\"limit\":"@ + decimal(limited.limit as nat) + ",\"reset\":"@ + decimal(limited.reset as nat)
        + "}"@
}

/// Serializes an object with the members `limit` and `reset` with
/// `serde_json::to_string`. The contract claims that the compact form comes
/// out: the members in this order, each number in decimal notation, no
/// blanks. Serializing a map with text keys cannot fail.
#[verifier::external_body]
fn rate_limit_json(limited: RateLimited) -> (json: String)
    ensures
        json@ == rate_limit_payload(limited),
{
    let mut members = serde_json::Map::new();
    members.insert("limit".to_owned(), serde_json::Value::from(limited.limit));
    members.insert("reset".to_owned(), serde_json::Value::from(limited.reset));
    serde_json::to_string(&serde_json::Value::Object(members)).unwrap()
}

/// The two kinds of answer.
#[derive(Clone, Copy, Debug, PartialEq, Eq, Structural)]
pub enum Route {
    /// One rendered page.
    Page,
    /// A stream of events, one for each change.
    Stream,
}

/// The kind of answer that a request with this `Accept` header gets. Only
/// the exact value `text/event-stream` asks for the stream.
pub fn handle_request(accept: Option<&str>) -> (route: Route)
    ensures
        route == Route::Stream <==> (accept matches Some(value) && value@ == "text/event-stream"@),
{
    match accept {
        Some(value) => if text_eq(value, "text/event-stream") {
            Route::Stream
        } else {
            Route::Page
        },
        None => Route::Page,
    }
}

/// The content type of an answer.
#[derive(Clone, Copy, Debug, PartialEq, Eq, Structural)]
pub enum ContentType {
    Plain,
    Html,
    EventStream,
}

impl ContentType {
    /// The value of the `Content-Type` header.
    pub fn as_str(self) -> (value: &'static str)
        ensures
            value@ == match self {
                ContentType::Plain => "text/plain"@,
                ContentType::Html => "text/html"@,
                ContentType::EventStream => "text/event-stream"@,
            },
    {
        match self {
            ContentType::Plain => "text/plain",
            ContentType::Html => "text/html",
            ContentType::EventStream => "text/event-stream",
        }
    }
}

/// A one-shot answer.
#[derive(Debug, PartialEq, Eq)]
pub struct Response {
    pub status: u16,
    pub content_type: ContentType,
    pub body: String,
}

/// What a one-shot request is answered from.
#[derive(Debug, PartialEq, Eq)]
pub enum Source {
    /// The current content of the file, to be rendered.
    Markdown(String),
    /// The failure that is the current state, to be reported.
    Broken(ErrorData),
}

/// Takes a copy of the current state for one request.
pub fn current_source(state: &WatchedState) -> (source: Source)
    ensures
        match source {
            Source::Markdown(text) => state@ == StateView::Content(text@),
            Source::Broken(error) => state@ == StateView::Failed(error@),
        },
{
    match state {
        WatchedState::Content(text) => Source::Markdown(text.clone()),
        WatchedState::Failed(error) => Source::Broken(clone_error(error)),
    }
}

/// The time left until `reset` (seconds since the Unix epoch) at `now`
/// (nanoseconds since the Unix epoch), in nanoseconds; none once it is past.
pub open spec fn wait_nanos(reset: u64, now: u128) -> nat {
    if reset * 1_000_000_000 > now {
        (reset * 1_000_000_000 - now) as nat
    } else {
        0
    }
}

/// The time left until `reset` at `now`, as it is shown to the user.
pub open spec fn wait_text(reset: u64, now: u128) -> Seq<char> {
    duration_debug(
        (wait_nanos(reset, now) / 1_000_000_000) as u64,
        (wait_nanos(reset, now) % 1_000_000_000) as u32,
    )
}

/// The time left until `reset`, as whole seconds and nanoseconds.
pub fn remaining_wait(reset: u64, now: u128) -> (wait: (u64, u32))
    ensures
        wait.0 == wait_nanos(reset, now) / 1_000_000_000,
        wait.1 == wait_nanos(reset, now) % 1_000_000_000,
{
    let target: u128 = (reset as u128) * 1_000_000_000;
    if target <= now {
        (0, 0)
    } else {
        let rest: u128 = target - now;
        let secs: u128 = rest / 1_000_000_000;
        let nanos: u128 = rest % 1_000_000_000;
        assert(secs <= reset);
        (secs as u64, nanos as u32)
    }
}

/// The body of the answer to a request that met the rate limit.
pub open spec fn rate_limit_page(limit: u32, wait: Seq<char>) -> Seq<char> {
    "Rate Limited\n============\nYou have used your quota of "@ + decimal(limit as nat)
        + " requests and are now rate limitedby the GitHub API.\nYou may continue to send requests in "@
        + wait + "."@
}

/// The body of the answer to a request that failed.
pub open spec fn error_page(report: Seq<char>) -> Seq<char> {
    "Internal Server Error\n=====================\n"@ + report
}

/// Writes the body of the answer to a request that met the rate limit.
/// `wait` is the time left, as it is to be shown.
pub fn rate_limit_body(limit: u32, wait: &str) -> (body: String)
    ensures
        body@ == rate_limit_page(limit, wait@),
{
    let mut out: Vec<char> = Vec::new();
    push_str(&mut out, "Rate Limited\n============\nYou have used your quota of ");
    push_decimal(&mut out, limit as u64);
    push_str(
        &mut out,
        " requests and are now rate limitedby the GitHub API.\nYou may continue to send requests in ",
    );
    push_str(&mut out, wait);
    push_str(&mut out, ".");
    string_of(&out)
}

/// How a one-shot request ended.
#[derive(Debug, PartialEq, Eq)]
pub enum PageOutcome {
    /// The finished page.
    Page(String),
    /// The external renderer's quota is used up.
    RateLimited(RateLimited),
    /// Something failed; the text reports the whole chain of causes.
    Failed(String),
}

/// The answer to a one-shot request that ended with a page.
pub fn page_response(page: String) -> (response: Response)
    ensures
        response.status == 200,
        response.content_type == ContentType::Html,
        response.body@ == page@,
{
    Response { status: 200, content_type: ContentType::Html, body: page }
}

/// The answer to a one-shot request that met the rate limit, at the time
/// `now` in nanoseconds since the Unix epoch.
pub fn rate_limited_response(limited: RateLimited, now: u128) -> (response: Response)
    ensures
        response.status == 403,
        response.content_type == ContentType::Plain,
        response.body@ == rate_limit_page(limited.limit, wait_text(limited.reset, now)),
{
    let wait = remaining_wait(limited.reset, now);
    let shown = format_duration(wait.0, wait.1);
    Response {
        status: 403,
        content_type: ContentType::Plain,
        body: rate_limit_body(limited.limit, shown.as_str()),
    }
}

/// The answer to a one-shot request that failed.
pub fn error_response(report: &str) -> (response: Response)
    ensures
        response.status == 500,
        response.content_type == ContentType::Plain,
        response.body@ == error_page(report@),
{
    let mut out: Vec<char> = Vec::new();
    push_str(&mut out, "Internal Server Error\n=====================\n");
    push_str(&mut out, report);
    Response { status: 500, content_type: ContentType::Plain, body: string_of(&out) }
}

/// The answer to a one-shot request: the page with status 200, a note on the
/// rate limit with status 403, or the report of a failure with status 500.
pub fn get(outcome: PageOutcome, now: u128) -> (response: Response)
    ensures
        match outcome {
            PageOutcome::Page(page) => {
                &&& response.status == 200
                &&& response.content_type == ContentType::Html
                &&& response.body@ == page@
            },
            PageOutcome::RateLimited(limited) => {
                &&& response.status == 403
                &&& response.content_type == ContentType::Plain
                &&& response.body@ == rate_limit_page(
                    limited.limit,
                    wait_text(limited.reset, now),
                )
            },
            PageOutcome::Failed(report) => {
                &&& response.status == 500
                &&& response.content_type == ContentType::Plain
                &&& response.body@ == error_page(report@)
            },
        },
{
    match outcome {
        PageOutcome::Page(page) => page_response(page),
        PageOutcome::RateLimited(limited) => rate_limited_response(limited, now),
        PageOutcome::Failed(report) => error_response(report.as_str()),
    }
}

/// Where a streaming connection stands.
#[derive(Clone, Copy, Debug, PartialEq, Eq, Structural)]
pub enum StreamState {
    /// Accepted, nothing done yet.
    Idle,
    /// Waiting for the watched file to change.
    WaitingForChange,
    /// Waiting for the renderer.
    Rendering,
    /// Writing an event to the client.
    Emitting,
    /// Over: the client left, the server shuts down, or the change source is
    /// gone.
    Closed,
}

/// What happened on a streaming connection.
#[derive(Debug, PartialEq, Eq)]
pub enum StreamEvent {
    /// The connection was accepted.
    Opened,
    /// The watched file changed: its content, or the report of the failure
    /// to read it.
    Changed(Result<String, String>),
    /// The change source is gone: there will be no more changes.
    SourceClosed,
    /// The renderer is done: markup, a rate limit, or the report of a
    /// failure.
    Rendered(Result<Result<String, RateLimited>, String>),
    /// The event was written.
    Sent,
    /// The server was told to shut down.
    Shutdown,
    /// The client left.
    Disconnected,
}

/// What to do next on a streaming connection.
#[derive(Debug, PartialEq, Eq)]
pub enum StreamAction {
    /// Nothing: the event does not concern this state.
    Nothing,
    /// Wait for the next change of the watched file.
    Wait,
    /// Render this text.
    Render(String),
    /// Write this event to the client.
    Emit(String),
    /// End the stream in good order.
    Close,
    /// Give the connection up; nobody is listening.
    Abandon,
}

/// The mathematical value of a [`StreamEvent`].
pub ghost enum EventView {
    Opened,
    Changed(Result<Seq<char>, Seq<char>>),
    SourceClosed,
    Rendered(Result<Result<Seq<char>, RateLimited>, Seq<char>>),
    Sent,
    Shutdown,
    Disconnected,
}

/// The mathematical value of a [`StreamAction`].
pub ghost enum ActionView {
    Nothing,
    Wait,
    Render(Seq<char>),
    Emit(Seq<char>),
    Close,
    Abandon,
}

impl View for StreamEvent {
    type V = EventView;

    open spec fn view(&self) -> EventView {
        match self {
            StreamEvent::Opened => EventView::Opened,
            StreamEvent::Changed(Ok(text)) => EventView::Changed(Ok(text@)),
            StreamEvent::Changed(Err(report)) => EventView::Changed(Err(report@)),
            StreamEvent::SourceClosed => EventView::SourceClosed,
            StreamEvent::Rendered(Ok(Ok(html))) => EventView::Rendered(Ok(Ok(html@))),
            StreamEvent::Rendered(Ok(Err(limited))) => EventView::Rendered(Ok(Err(*limited))),
            StreamEvent::Rendered(Err(report)) => EventView::Rendered(Err(report@)),
            StreamEvent::Sent => EventView::Sent,
            StreamEvent::Shutdown => EventView::Shutdown,
            StreamEvent::Disconnected => EventView::Disconnected,
        }
    }
}

impl View for StreamAction {
    type V = ActionView;

    open spec fn view(&self) -> ActionView {
        match self {
            StreamAction::Nothing => ActionView::Nothing,
            StreamAction::Wait => ActionView::Wait,
            StreamAction::Render(text) => ActionView::Render(text@),
            StreamAction::Emit(event) => ActionView::Emit(event@),
            StreamAction::Close => ActionView::Close,
            StreamAction::Abandon => ActionView::Abandon,
        }
    }
}

/// The event that reports the outcome of a render.
pub open spec fn rendered_event(outcome: Result<Result<Seq<char>, RateLimited>, Seq<char>>) -> Seq<
    char,
> {
    match outcome {
        Ok(Ok(html)) => event_text("update"@, html),
        Ok(Err(limited)) => event_text("rate_limited"@, rate_limit_payload(limited)),
        Err(report) => event_text("render_error"@, report),
    }
}

/// The event that reports that the watched file could not be read. The
/// report is sent in its `Debug` form, which keeps it on one line.
pub open spec fn unreadable_event(report: Seq<char>) -> Seq<char> {
    event_text("render_error"@, text_debug(report))
}

/// The step of a streaming connection: the state that follows `state` on
/// `event`, and what to do.
///
/// A closed connection stays closed. A shutdown ends any other connection in
/// good order, and a client that left ends it at once. Otherwise the
/// connection waits for a change, has it rendered, writes the event and
/// waits again; a failure becomes an event and never ends the connection.
/// An event that the state does not expect changes nothing.
pub open spec fn stream_step(state: StreamState, event: EventView) -> (StreamState, ActionView) {
    match (state, event) {
        (StreamState::Closed, _) => (StreamState::Closed, ActionView::Nothing),
        (_, EventView::Shutdown) => (StreamState::Closed, ActionView::Close),
        (_, EventView::Disconnected) => (StreamState::Closed, ActionView::Abandon),
        (StreamState::Idle, EventView::Opened) => (StreamState::WaitingForChange, ActionView::Wait),
        (StreamState::WaitingForChange, EventView::Changed(Ok(text))) => (
            StreamState::Rendering,
            ActionView::Render(text),
        ),
        (StreamState::WaitingForChange, EventView::Changed(Err(report))) => (
            StreamState::Emitting,
            ActionView::Emit(unreadable_event(report)),
        ),
        (StreamState::WaitingForChange, EventView::SourceClosed) => (
            StreamState::Closed,
            ActionView::Close,
        ),
        (StreamState::Rendering, EventView::Rendered(outcome)) => (
            StreamState::Emitting,
            ActionView::Emit(rendered_event(outcome)),
        ),
        (StreamState::Emitting, EventView::Sent) => (StreamState::WaitingForChange, ActionView::Wait),
        _ => (state, ActionView::Nothing),
    }
}

/// Writes the event that reports the outcome of a render.
pub fn render_outcome_event(outcome: Result<Result<String, RateLimited>, String>) -> (event: String)
    ensures
        event@ == rendered_event(
            match outcome {
                Ok(Ok(html)) => Ok(Ok(html@)),
                Ok(Err(limited)) => Ok(Err(limited)),
                Err(report) => Err(report@),
            },
        ),
{
    match outcome {
        Ok(Ok(html)) => sse("update", html.as_str()),
        Ok(Err(limited)) => {
            let payload = rate_limit_json(limited);
            sse("rate_limited", payload.as_str())
        },
        Err(report) => sse("render_error", report.as_str()),
    }
}

/// One streaming connection.
///
/// A connection starts by waiting. It is sent the changes that are published
/// after it was opened; the state of the file at the time it was opened is
/// what the page itself was rendered from, and is not sent again.
pub struct StreamConnection {
    state: StreamState,
}

impl StreamConnection {
    /// A connection that was just accepted.
    pub fn new() -> (connection: Self)
        ensures
            connection.state() == StreamState::Idle,
    {
        StreamConnection { state: StreamState::Idle }
    }

    /// Where the connection stands.
    pub closed spec fn state(&self) -> StreamState {
        self.state
    }

    /// Where the connection stands.
    pub fn current(&self) -> (state: StreamState)
        ensures
            state == self.state(),
    {
        self.state
    }

    /// Takes an event and says what to do next.
    pub fn event_stream(&mut self, event: StreamEvent) -> (action: StreamAction)
        ensures
            (final(self).state(), action@) == stream_step(old(self).state(), event@),
    {
        match self.state {
            StreamState::Closed => {
                return StreamAction::Nothing;
            },
            _ => {},
        }
        match event {
            StreamEvent::Shutdown => {
                self.state = StreamState::Closed;
                return StreamAction::Close;
            },
            StreamEvent::Disconnected => {
                self.state = StreamState::Closed;
                return StreamAction::Abandon;
            },
            _ => {},
        }
        match self.state {
            StreamState::Idle => match event {
                StreamEvent::Opened => {
                    self.state = StreamState::WaitingForChange;
                    StreamAction::Wait
                },
                _ => StreamAction::Nothing,
            },
            StreamState::WaitingForChange => match event {
                StreamEvent::Changed(Ok(text)) => {
                    self.state = StreamState::Rendering;
                    StreamAction::Render(text)
                },
                StreamEvent::Changed(Err(report)) => {
                    self.state = StreamState::Emitting;
                    let quoted = format_debug(report.as_str());
                    StreamAction::Emit(sse("render_error", quoted.as_str()))
                },
                StreamEvent::SourceClosed => {
                    self.state = StreamState::Closed;
                    StreamAction::Close
                },
                _ => StreamAction::Nothing,
            },
            StreamState::Rendering => match event {
                StreamEvent::Rendered(outcome) => {
                    self.state = StreamState::Emitting;
                    StreamAction::Emit(render_outcome_event(outcome))
                },
                _ => StreamAction::Nothing,
            },
            StreamState::Emitting => match event {
                StreamEvent::Sent => {
                    self.state = StreamState::WaitingForChange;
                    StreamAction::Wait
                },
                _ => StreamAction::Nothing,
            },
            StreamState::Closed => StreamAction::Nothing,
        }
    }
}

/// A closed connection stays closed, whatever happens.
pub proof fn law_closed_is_final(event: EventView)
    ensures
        stream_step(StreamState::Closed, event) == (StreamState::Closed, ActionView::Nothing),
{
}

/// Nothing but a shutdown, a client that left or the end of the change source
/// closes a connection: a change that cannot be read, a rate limit and a
/// render that failed are sent as events and the stream stays open.
pub proof fn law_failures_keep_the_stream_open(state: StreamState, event: EventView)
    requires
        state != StreamState::Closed,
        event != EventView::Shutdown,
        event != EventView::Disconnected,
        event != EventView::SourceClosed,
    ensures
        stream_step(state, event).0 != StreamState::Closed,
        stream_step(state, event).1 != ActionView::Close,
        stream_step(state, event).1 != ActionView::Abandon,
{
}

/// A shutdown closes every open connection in good order, wherever it
/// stands.
pub proof fn law_shutdown_closes_in_good_order(state: StreamState)
    requires
        state != StreamState::Closed,
    ensures
        stream_step(state, EventView::Shutdown) == (StreamState::Closed, ActionView::Close),
{
}

} // verus!
