//! The render cache and the rules for the external renderer's answers.
//!
//! Rendering is slow and rate limited, so every finished artifact is kept
//! under the digest of the text it was rendered from. A request first looks
//! the digest up; only on a miss is the external renderer called, and only a
//! successful, fully post-processed artifact is ever put into the cache.
//! A request that missed holds the renderer exclusively until its outcome is
//! settled, so at most one render is in flight and requests are served one
//! after the other.

use crate::error::{clone_error, ErrorData, ErrorLink};
use crate::store::{Key, Store};
use crate::text::{parse_number, parse_unsigned, push_str, string_of, NumberFault};
use sha2::{Digest, Sha512};
use vstd::prelude::*;
use vstd::utf8::encode_utf8;

verus! {

/// The SHA-512 digest of a byte sequence.
pub uninterp spec fn sha512(data: Seq<u8>) -> Seq<u8>;

/// Calls `sha2::Sha512::digest`. The contract claims that the bytes
/// returned are the SHA-512 digest of `data`, which depends on `data` alone.
#[verifier::external_body]
fn sha512_digest(data: &[u8]) -> (digest: Vec<u8>)
    ensures
        digest@ == sha512(data@),
{
    Sha512::digest(data).to_vec()
}

/// The digest under which the artifact of a text is cached: SHA-512 of the
/// text in UTF-8.
pub open spec fn content_digest(text: Seq<char>) -> Seq<u8> {
    sha512(encode_utf8(text))
}

/// The identity of a document's content in the render cache. Two keys are the
/// same key when their digest bytes are equal.
#[derive(Debug, PartialEq, Eq)]
pub struct CacheKey {
    digest: Vec<u8>,
}

impl View for CacheKey {
    type V = Seq<u8>;

    closed spec fn view(&self) -> Seq<u8> {
        self.digest@
    }
}

impl Key for CacheKey {
    fn same(&self, other: &Self) -> (r: bool) {
        if self.digest.len() != other.digest.len() {
            return false;
        }
        let mut i: usize = 0;
        while i < self.digest.len()
            invariant
                i <= self.digest.len(),
                self.digest.len() == other.digest.len(),
                forall|j: int| 0 <= j < i ==> self.digest[j] == other.digest[j],
            decreases self.digest.len() - i,
        {
            if self.digest[i] != other.digest[i] {
                return false;
            }
            i += 1;
        }
        assert(self.digest@ =~= other.digest@);
        true
    }
}

impl CacheKey {
    /// The key of `text`.
    pub fn of(text: &str) -> (key: CacheKey)
        ensures
            key@ == content_digest(text@),
    {
        CacheKey { digest: sha512_digest(text.as_bytes()) }
    }

    /// The digest bytes.
    pub fn bytes(&self) -> (bytes: Vec<u8>)
        ensures
            bytes@ == self@,
    {
        self.digest.clone()
    }

    /// A second handle on the same key.
    pub fn duplicate(&self) -> (key: CacheKey)
        ensures
            key@ == self@,
    {
        CacheKey { digest: self.digest.clone() }
    }
}

/// The entry count above which the next artifact empties the cache first.
pub const CACHE_LIMIT: usize = 100;

/// The cache after `artifact` is put under `key`. A cache that holds
/// more than [`CACHE_LIMIT`] entries is emptied first, whole: no entry is
/// chosen over another.
pub open spec fn after_put(
    cache: Map<Seq<u8>, Seq<char>>,
    key: Seq<u8>,
    artifact: Seq<char>,
) -> Map<Seq<u8>, Seq<char>> {
    if cache.len() > CACHE_LIMIT {
        Map::<Seq<u8>, Seq<char>>::empty().insert(key, artifact)
    } else {
        cache.insert(key, artifact)
    }
}

/// Finished artifacts by content digest.
pub struct RenderCache {
    store: Store<CacheKey>,
}

impl View for RenderCache {
    type V = Map<Seq<u8>, Seq<char>>;

    closed spec fn view(&self) -> Map<Seq<u8>, Seq<char>> {
        self.store@
    }
}

impl RenderCache {
    /// An empty cache.
    pub fn new() -> (cache: Self)
        ensures
            cache@ == Map::<Seq<u8>, Seq<char>>::empty(),
    {
        RenderCache { store: Store::new() }
    }

    /// The number of artifacts held.
    pub fn len(&self) -> (n: usize)
        ensures
            self@.dom().finite(),
            n == self@.len(),
    {
        self.store.len()
    }

    /// A copy of the artifact cached under `key`, if there is one.
    pub fn get(&self, key: &CacheKey) -> (found: Option<String>)
        ensures
            match found {
                Some(artifact) => self@.contains_key(key@) && self@[key@] == artifact@,
                None => !self@.contains_key(key@),
            },
    {
        self.store.get(key)
    }

    /// Caches a finished artifact, emptying an overfull cache first.
    pub fn put(&mut self, key: CacheKey, artifact: String)
        ensures
            final(self)@ == after_put(old(self)@, key@, artifact@),
    {
        if self.store.len() > CACHE_LIMIT {
            self.store.clear();
        }
        self.store.insert(key, artifact);
    }
}

/// The quota that the external renderer reported as used up.
#[derive(Clone, Copy, Debug, PartialEq, Eq, Structural)]
pub struct RateLimited {
    /// The number of requests the quota allows.
    pub limit: u32,
    /// When the quota is refilled, in seconds since the Unix epoch.
    pub reset: u64,
}

/// Why a header value is not the number it should be.
#[derive(Clone, Copy, Debug, PartialEq, Eq, Structural)]
pub enum HeaderFault {
    /// A byte of the value is neither a tab nor a visible ASCII character.
    NotText,
    /// The value is text, but not a number of the expected type.
    NotNumber(NumberFault),
}

/// What is wrong with an answer of the external renderer, as far as its
/// status line and headers show.
#[derive(Clone, Copy, Debug, PartialEq, Eq, Structural)]
pub enum ResponseFault {
    /// Rate limited, without a quota header.
    MissingLimit,
    /// Rate limited, with a quota header that is no 32-bit number.
    InvalidLimit(HeaderFault),
    /// Rate limited, without a reset header.
    MissingReset,
    /// Rate limited, with a reset header that is no 64-bit number.
    InvalidReset(HeaderFault),
    /// Neither a success nor a client error.
    Status(u16),
}

/// Why a render failed. A failure is reported to the caller and never cached.
#[derive(Debug, PartialEq, Eq)]
pub enum RenderError {
    /// The external renderer could not be reached.
    Transport(ErrorData),
    /// The status line or the headers of the answer were not as expected.
    Response(ResponseFault),
    /// The external renderer refused the request and said why.
    Rejected(String),
    /// The external renderer refused the request, and its reason could not
    /// be read.
    UnreadableRejection(ErrorData),
    /// The rendered markup could not be read.
    UnreadableMarkup(ErrorData),
}

/// Whether a byte may stand in a header value that is read as text.
pub open spec fn is_header_char(b: u8) -> bool {
    b == 9 || (32 <= b && b < 127)
}

/// A header value read as text, one character for each byte.
pub open spec fn header_text(raw: Seq<u8>) -> Seq<char> {
    Seq::new(raw.len(), |i: int| raw[i] as char)
}

/// The number that a header value holds, at most `max`.
pub open spec fn header_number(raw: Seq<u8>, max: nat) -> Result<nat, HeaderFault> {
    if exists|i: int| 0 <= i < raw.len() && !is_header_char(#[trigger] raw[i]) {
        Err(HeaderFault::NotText)
    } else {
        match parse_unsigned(header_text(raw), max) {
            Ok(n) => Ok(n),
            Err(fault) => Err(HeaderFault::NotNumber(fault)),
        }
    }
}

/// Reads a header value as an unsigned decimal number of at most `max`.
pub fn parse_header_value(raw: &[u8], max: u64) -> (r: Result<u64, HeaderFault>)
    ensures
        match r {
            Ok(n) => header_number(raw@, max as nat) == Ok::<nat, HeaderFault>(n as nat),
            Err(fault) => header_number(raw@, max as nat) == Err::<nat, HeaderFault>(fault),
        },
{
    let mut text: Vec<char> = Vec::new();
    let mut i: usize = 0;
    while i < raw.len()
        invariant
            i <= raw.len(),
            text@ == header_text(raw@).take(i as int),
            forall|j: int| 0 <= j < i ==> is_header_char(#[trigger] raw[j]),
        decreases raw.len() - i,
    {
        let b = raw[i];
        if !(b == 9 || (32 <= b && b < 127)) {
            return Err(HeaderFault::NotText);
        }
        text.push(b as char);
        assert(text@ == header_text(raw@).take(i + 1));
        i += 1;
    }
    assert(text@ == header_text(raw@));
    assert(text@.subrange(0, text@.len() as int) == text@);
    match parse_number(&text, 0, text.len(), max) {
        Ok(n) => Ok(n),
        Err(fault) => Err(HeaderFault::NotNumber(fault)),
    }
}

/// The limit that a rate-limited answer carries. The quota header is looked
/// at first, then the reset header; the first one that is missing or invalid
/// decides the fault.
pub open spec fn rate_limit_of(limit: Option<Seq<u8>>, reset: Option<Seq<u8>>) -> Result<
    RateLimited,
    ResponseFault,
> {
    match limit {
        None => Err(ResponseFault::MissingLimit),
        Some(limit) => match header_number(limit, u32::MAX as nat) {
            Err(fault) => Err(ResponseFault::InvalidLimit(fault)),
            Ok(quota) => match reset {
                None => Err(ResponseFault::MissingReset),
                Some(reset) => match header_number(reset, u64::MAX as nat) {
                    Err(fault) => Err(ResponseFault::InvalidReset(fault)),
                    Ok(at) => Ok(RateLimited { limit: quota as u32, reset: at as u64 }),
                },
            },
        },
    }
}

/// The view of an optional header value.
pub open spec fn header_view(raw: Option<&[u8]>) -> Option<Seq<u8>> {
    match raw {
        Some(bytes) => Some(bytes@),
        None => None,
    }
}

/// Reads the quota and the reset time of a rate-limited answer.
pub fn rate_limit(limit: Option<&[u8]>, reset: Option<&[u8]>) -> (r: Result<
    RateLimited,
    ResponseFault,
>)
    ensures
        r == rate_limit_of(header_view(limit), header_view(reset)),
{
    let quota = match limit {
        None => {
            return Err(ResponseFault::MissingLimit);
        },
        Some(raw) => match parse_header_value(raw, 0xffff_ffff) {
            Err(fault) => {
                return Err(ResponseFault::InvalidLimit(fault));
            },
            Ok(n) => n,
        },
    };
    let at = match reset {
        None => {
            return Err(ResponseFault::MissingReset);
        },
        Some(raw) => match parse_header_value(raw, u64::MAX) {
            Err(fault) => {
                return Err(ResponseFault::InvalidReset(fault));
            },
            Ok(n) => n,
        },
    };
    Ok(RateLimited { limit: quota as u32, reset: at })
}

/// What the status of an answer asks the caller to do next.
#[derive(Clone, Copy, Debug, PartialEq, Eq, Structural)]
pub enum ReplyStep {
    /// The quota is used up: the render ends with this limit, and nothing is
    /// cached.
    RateLimited(RateLimited),
    /// The render failed, and the body need not be read.
    Failed(ResponseFault),
    /// The request was refused: read the reason from the body.
    ReadRejection,
    /// The request succeeded: read the markup from the body.
    ReadMarkup,
}

/// Whether a status is a success (2xx).
pub open spec fn is_success(status: u16) -> bool {
    200 <= status < 300
}

/// Whether a status is a client error (4xx).
pub open spec fn is_client_error(status: u16) -> bool {
    400 <= status < 500
}

/// The step that follows an answer with the given status and rate-limit
/// headers. Status 403 means rate limiting and is looked at before the other
/// client errors.
pub open spec fn reply_step(status: u16, limit: Option<Seq<u8>>, reset: Option<Seq<u8>>) -> ReplyStep {
    if status == 403 {
        match rate_limit_of(limit, reset) {
            Ok(limited) => ReplyStep::RateLimited(limited),
            Err(fault) => ReplyStep::Failed(fault),
        }
    } else if is_client_error(status) {
        ReplyStep::ReadRejection
    } else if !is_success(status) {
        ReplyStep::Failed(ResponseFault::Status(status))
    } else {
        ReplyStep::ReadMarkup
    }
}

/// Decides what follows an answer of the external renderer.
pub fn on_response(status: u16, limit: Option<&[u8]>, reset: Option<&[u8]>) -> (step: ReplyStep)
    ensures
        step == reply_step(status, header_view(limit), header_view(reset)),
{
    if status == 403 {
        match rate_limit(limit, reset) {
            Ok(limited) => ReplyStep::RateLimited(limited),
            Err(fault) => ReplyStep::Failed(fault),
        }
    } else if 400 <= status && status < 500 {
        ReplyStep::ReadRejection
    } else if !(200 <= status && status < 300) {
        ReplyStep::Failed(ResponseFault::Status(status))
    } else {
        ReplyStep::ReadMarkup
    }
}

/// The failure of a refused request: the renderer's own reason where the
/// body gave one, else a note that it could not be read.
pub fn rejection(reason: Result<String, ErrorData>) -> (error: RenderError)
    ensures
        match reason {
            Ok(message) => error matches RenderError::Rejected(m) && m@ == message@,
            Err(cause) => error matches RenderError::UnreadableRejection(c) && c@ == cause@,
        },
{
    match reason {
        Ok(message) => RenderError::Rejected(message),
        Err(cause) => RenderError::UnreadableRejection(cause),
    }
}

/// The markup of a successful answer, or the failure to read it.
pub fn markup(body: Result<String, ErrorData>) -> (r: Result<String, RenderError>)
    ensures
        match body {
            Ok(text) => r matches Ok(m) && m@ == text@,
            Err(cause) => r matches Err(RenderError::UnreadableMarkup(c)) && c@ == cause@,
        },
{
    match body {
        Ok(text) => Ok(text),
        Err(cause) => Err(RenderError::UnreadableMarkup(cause)),
    }
}

/// A link that the library writes itself: it prints the same for a developer
/// as for a user.
pub open spec fn note(text: Seq<char>) -> ErrorLink {
    ErrorLink { debug: text, display: text }
}

/// Why a text is no number, in words.
pub open spec fn number_fault_text(fault: NumberFault) -> Seq<char> {
    match fault {
        NumberFault::Empty => "cannot parse integer from empty string"@,
        NumberFault::InvalidDigit => "invalid digit found in string"@,
        NumberFault::Overflow => "number too large to fit in target type"@,
    }
}

/// Why a header value is not the number it should be, in words.
pub open spec fn header_fault_text(fault: HeaderFault) -> Seq<char> {
    match fault {
        HeaderFault::NotText => "failed to convert header to a str"@,
        HeaderFault::NotNumber(fault) => number_fault_text(fault),
    }
}

/// What is wrong with an answer, in words: the fault, and for an invalid
/// header what is wrong with its value. `status` is the status as it is to be
/// shown.
pub open spec fn response_fault_chain(fault: ResponseFault, status: Seq<char>) -> Seq<ErrorLink> {
    match fault {
        ResponseFault::MissingLimit => seq![note("no ratelimit limit header"@)],
        ResponseFault::InvalidLimit(fault) => seq![
            note("ratelimit limit header was invalid"@),
            note(header_fault_text(fault)),
        ],
        ResponseFault::MissingReset => seq![note("no ratelimit reset header"@)],
        ResponseFault::InvalidReset(fault) => seq![
            note("ratelimit reset header was invalid"@),
            note(header_fault_text(fault)),
        ],
        ResponseFault::Status(_) => seq![note("GitHub request failed with "@ + status)],
    }
}

/// The report of a failed render, the outermost link first. Every report
/// begins by saying that the render failed. A failure that lies in the
/// answer of the external renderer says so next. Then comes the failure
/// itself: the library's own words, the renderer's reason, or the chain of
/// the cause.
pub open spec fn report_chain(error: RenderError, status: Seq<char>) -> Seq<ErrorLink> {
    seq![note("failed to render markdown"@)] + match error {
        RenderError::Transport(cause) => cause@,
        RenderError::Response(fault) => seq![note("GitHub API response was unexpected"@)]
            + response_fault_chain(fault, status),
        RenderError::Rejected(message) => seq![
            note("GitHub API response was unexpected"@),
            note(message@),
        ],
        RenderError::UnreadableRejection(cause) => seq![
            note("GitHub API response was unexpected"@),
        ] + cause@,
        RenderError::UnreadableMarkup(cause) => seq![note("GitHub API response was unexpected"@)]
            + cause@,
    }
}

/// A link with the given text in front of a chain.
fn noted(text: &str, source: Option<ErrorData>) -> (error: ErrorData)
    ensures
        error@ == seq![note(text@)] + match source {
            Some(cause) => cause@,
            None => Seq::<ErrorLink>::empty(),
        },
{
    let source = match source {
        Some(cause) => Some(Box::new(cause)),
        None => None,
    };
    ErrorData { debug: text.to_owned(), display: text.to_owned(), source }
}

fn number_fault_words(fault: NumberFault) -> (words: &'static str)
    ensures
        words@ == number_fault_text(fault),
{
    match fault {
        NumberFault::Empty => "cannot parse integer from empty string",
        NumberFault::InvalidDigit => "invalid digit found in string",
        NumberFault::Overflow => "number too large to fit in target type",
    }
}

fn header_fault_words(fault: HeaderFault) -> (words: &'static str)
    ensures
        words@ == header_fault_text(fault),
{
    match fault {
        HeaderFault::NotText => "failed to convert header to a str",
        HeaderFault::NotNumber(fault) => number_fault_words(fault),
    }
}

fn response_fault_report(fault: ResponseFault, status: &str) -> (error: ErrorData)
    ensures
        error@ == response_fault_chain(fault, status@),
{
    match fault {
        ResponseFault::MissingLimit => noted("no ratelimit limit header", None),
        ResponseFault::InvalidLimit(fault) => noted(
            "ratelimit limit header was invalid",
            Some(noted(header_fault_words(fault), None)),
        ),
        ResponseFault::MissingReset => noted("no ratelimit reset header", None),
        ResponseFault::InvalidReset(fault) => noted(
            "ratelimit reset header was invalid",
            Some(noted(header_fault_words(fault), None)),
        ),
        ResponseFault::Status(_) => {
            let mut text: Vec<char> = Vec::new();
            push_str(&mut text, "GitHub request failed with ");
            push_str(&mut text, status);
            let text = string_of(&text);
            noted(text.as_str(), None)
        },
    }
}

/// Writes the report of a failed render. `status` is the status of the
/// answer as it is to be shown; it is used for an answer that is neither a
/// success nor a client error.
pub fn report(error: &RenderError, status: &str) -> (chain: ErrorData)
    ensures
        chain@ == report_chain(*error, status@),
{
    let unexpected = "GitHub API response was unexpected";
    let inner = match error {
        RenderError::Transport(cause) => clone_error(cause),
        RenderError::Response(fault) => noted(
            unexpected,
            Some(response_fault_report(*fault, status)),
        ),
        RenderError::Rejected(message) => noted(unexpected, Some(noted(message.as_str(), None))),
        RenderError::UnreadableRejection(cause) => noted(unexpected, Some(clone_error(cause))),
        RenderError::UnreadableMarkup(cause) => noted(unexpected, Some(clone_error(cause))),
    };
    noted("failed to render markdown", Some(inner))
}

/// A request that missed the cache and waits for the external renderer.
///
/// It holds the renderer exclusively until it is settled: while one render
/// is in flight no other request can be started, for the same text or for
/// another.
pub struct Miss<'a> {
    /// The renderer whose cache will take the artifact.
    pub renderer: &'a mut Renderer,
    /// The key of the text that is being rendered.
    pub key: CacheKey,
}

/// How a request starts.
pub enum RenderStep<'a> {
    /// The artifact was cached: the request is done, with no external call.
    Cached(String),
    /// The text was not rendered before: call the external renderer, and
    /// settle the outcome.
    Fetch(Miss<'a>),
}

/// The cache after a request that missed has ended with `outcome`: only a
/// finished artifact is cached.
pub open spec fn settled(
    cache: Map<Seq<u8>, Seq<char>>,
    key: Seq<u8>,
    outcome: Option<Seq<char>>,
) -> Map<Seq<u8>, Seq<char>> {
    match outcome {
        Some(artifact) => after_put(cache, key, artifact),
        None => cache,
    }
}

/// The artifact of an outcome, if it has one.
pub open spec fn artifact_of(outcome: Result<Result<String, RateLimited>, RenderError>) -> Option<
    Seq<char>,
> {
    match outcome {
        Ok(Ok(artifact)) => Some(artifact@),
        _ => None,
    }
}

/// Renders documents through a cache.
pub struct Renderer {
    cache: RenderCache,
}

impl View for Renderer {
    type V = Map<Seq<u8>, Seq<char>>;

    closed spec fn view(&self) -> Map<Seq<u8>, Seq<char>> {
        self.cache@
    }
}

impl Renderer {
    /// A renderer with an empty cache.
    pub fn new() -> (renderer: Self)
        ensures
            renderer@ == Map::<Seq<u8>, Seq<char>>::empty(),
    {
        Renderer { cache: RenderCache::new() }
    }

    /// The number of artifacts cached.
    pub fn cached(&self) -> (n: usize)
        ensures
            self@.dom().finite(),
            n == self@.len(),
    {
        self.cache.len()
    }

    /// Starts a request for `text`: a hit ends it at once, a miss asks for
    /// the external call and keeps the renderer until the call is settled.
    pub fn begin<'a>(&'a mut self, text: &str) -> (step: RenderStep<'a>)
        ensures
            match step {
                RenderStep::Cached(artifact) => {
                    &&& old(self)@.contains_key(content_digest(text@))
                    &&& artifact@ == old(self)@[content_digest(text@)]
                    &&& final(self)@ == old(self)@
                },
                RenderStep::Fetch(miss) => {
                    &&& !old(self)@.contains_key(content_digest(text@))
                    &&& miss.key@ == content_digest(text@)
                    &&& miss.renderer@ == old(self)@
                    &&& final(self)@ == final(miss.renderer)@
                },
            },
    {
        let key = CacheKey::of(text);
        match self.cache.get(&key) {
            Some(artifact) => RenderStep::Cached(artifact),
            None => RenderStep::Fetch(Miss { renderer: self, key }),
        }
    }
}

impl<'a> Miss<'a> {
    /// Ends the request. A finished artifact is put into the cache; a rate
    /// limit or a failure leaves the cache as it was. The outcome is handed
    /// back unchanged, and the renderer is free again.
    pub fn settle(self, outcome: Result<Result<String, RateLimited>, RenderError>) -> (r: Result<
        Result<String, RateLimited>,
        RenderError,
    >)
        ensures
            r == outcome,
            final(self.renderer)@ == settled(old(self.renderer)@, self.key@, artifact_of(outcome)),
    {
        let Miss { renderer, key } = self;
        match &outcome {
            Ok(Ok(artifact)) => {
                renderer.cache.put(key, artifact.clone());
            },
            _ => {},
        }
        outcome
    }
}

/// One whole request as the cache sees it. `outcome` is what the external
/// call makes of the text if the call is made: a finished artifact, or
/// nothing (a rate limit or a failure).
pub ghost struct Served {
    /// The cache after the request.
    pub cache: Map<Seq<u8>, Seq<char>>,
    /// Whether the external renderer was called.
    pub called: bool,
    /// The artifact handed to the requester, if any.
    pub artifact: Option<Seq<char>>,
}

/// Serves one request for the text with digest `key`: a hit answers from the
/// cache without a call, a miss calls and settles the outcome.
pub open spec fn serve(
    cache: Map<Seq<u8>, Seq<char>>,
    key: Seq<u8>,
    outcome: Option<Seq<char>>,
) -> Served {
    if cache.contains_key(key) {
        Served { cache, called: false, artifact: Some(cache[key]) }
    } else {
        Served { cache: settled(cache, key, outcome), called: true, artifact: outcome }
    }
}

/// The number of external calls made by requests for the same text, the
/// `i`-th with `outcomes[i]`. The requests are served one after the other:
/// a request that missed holds the renderer until it is settled.
pub open spec fn calls_in_turn(
    cache: Map<Seq<u8>, Seq<char>>,
    key: Seq<u8>,
    outcomes: Seq<Option<Seq<char>>>,
) -> nat
    decreases outcomes.len(),
{
    if outcomes.len() == 0 {
        0
    } else {
        let first = serve(cache, key, outcomes[0]);
        (if first.called {
            1nat
        } else {
            0nat
        }) + calls_in_turn(first.cache, key, outcomes.skip(1))
    }
}

/// Once an artifact was rendered for a text, a request for any text with the
/// same bytes is a hit: it returns that very artifact and calls nobody,
/// whatever the external renderer would answer now.
pub proof fn law_hit_returns_first_artifact(
    cache: Map<Seq<u8>, Seq<char>>,
    first: Seq<char>,
    second: Seq<char>,
    artifact: Seq<char>,
    later: Option<Seq<char>>,
)
    requires
        !cache.contains_key(content_digest(first)),
        encode_utf8(first) == encode_utf8(second),
    ensures
        serve(cache, content_digest(first), Some(artifact)).called,
        !serve(
            serve(cache, content_digest(first), Some(artifact)).cache,
            content_digest(second),
            later,
        ).called,
        serve(
            serve(cache, content_digest(first), Some(artifact)).cache,
            content_digest(second),
            later,
        ).artifact == Some(artifact),
{
}

/// However many requests ask for the same text, the external renderer is
/// called at most once for it, as long as no call ends in a rate limit or a
/// failure; and not at all if the text was rendered before.
pub proof fn law_same_text_is_rendered_once(
    cache: Map<Seq<u8>, Seq<char>>,
    key: Seq<u8>,
    outcomes: Seq<Option<Seq<char>>>,
)
    requires
        forall|i: int| 0 <= i < outcomes.len() ==> outcomes[i] is Some,
    ensures
        calls_in_turn(cache, key, outcomes) <= 1,
        cache.contains_key(key) ==> calls_in_turn(cache, key, outcomes) == 0,
    decreases outcomes.len(),
{
    if outcomes.len() > 0 {
        let first = serve(cache, key, outcomes[0]);
        assert(first.cache.contains_key(key));
        assert forall|i: int| 0 <= i < outcomes.skip(1).len() implies outcomes.skip(1)[i] is Some by {
            assert(outcomes.skip(1)[i] == outcomes[i + 1]);
        }
        law_same_text_is_rendered_once(first.cache, key, outcomes.skip(1));
    }
}

/// Putting an artifact into a cache that holds more than the limit leaves
/// exactly that one artifact: every entry held before is gone, the newest of
/// them too.
pub proof fn law_overflow_empties_cache(
    cache: Map<Seq<u8>, Seq<char>>,
    key: Seq<u8>,
    artifact: Seq<char>,
)
    requires
        cache.dom().finite(),
        cache.len() > CACHE_LIMIT,
    ensures
        after_put(cache, key, artifact).dom().finite(),
        after_put(cache, key, artifact).len() == 1,
        after_put(cache, key, artifact)[key] == artifact,
        forall|other: Seq<u8>| other != key ==> !after_put(cache, key, artifact).contains_key(other),
{
    assert(after_put(cache, key, artifact).dom() =~= Set::<Seq<u8>>::empty().insert(key));
}

/// Up to the limit nothing is lost: a new key makes the cache one larger and
/// every entry held before is still a hit.
pub proof fn law_cache_grows_to_limit(
    cache: Map<Seq<u8>, Seq<char>>,
    key: Seq<u8>,
    artifact: Seq<char>,
)
    requires
        cache.dom().finite(),
        cache.len() <= CACHE_LIMIT,
        !cache.contains_key(key),
    ensures
        after_put(cache, key, artifact).dom().finite(),
        after_put(cache, key, artifact).len() == cache.len() + 1,
        forall|other: Seq<u8>|
            cache.contains_key(other) ==> after_put(cache, key, artifact).contains_key(other)
                && after_put(cache, key, artifact)[other] == cache[other],
{
}

/// A request that ends in a rate limit or a failure leaves the cache as it
/// was, so the next request for the same text calls the external renderer
/// again.
pub proof fn law_rate_limit_is_not_cached(
    cache: Map<Seq<u8>, Seq<char>>,
    key: Seq<u8>,
    next: Option<Seq<char>>,
)
    requires
        !cache.contains_key(key),
    ensures
        serve(cache, key, None).cache == cache,
        serve(cache, key, None).artifact is None,
        serve(serve(cache, key, None).cache, key, next).called,
{
}

} // verus!
