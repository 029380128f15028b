//! The client of the AI backend.
//!
//! A grading call is carried out by the caller, who sends the requests and
//! waits; the client decides. `grade_submission` takes the state of the call
//! and the event that has just happened and gives the next state and what to
//! do next. A call starts in `Exchange::new()` with `Event::Start` and is
//! over when the action is `Action::Finish`.

use crate::config::AppConfig;
use crate::grader::mock_grading::generate_mock_result;
use crate::grader::mock_grading::mock_result_of;
use crate::grader::prompt_builder::build_grading_prompt;
use crate::grader::prompt_builder::prompt_of;
use crate::grader::prompt_builder::template_of;
use crate::grader::response_parser::extract_json_text;
use crate::grader::response_parser::json_text_of;
use crate::grader::response_parser::parse_grading_response;
use crate::grader::response_parser::parse_outcome;
use crate::grader::response_parser::ParseError;
use crate::models::GradingRequest;
use crate::models::GradingRequestView;
use crate::models::GradingResult;
use crate::models::GradingResultView;
use crate::models::GradingStrategy;
use crate::models::OllamaRequest;
use crate::models::OllamaRequestView;
use crate::models::OllamaResponse;
use crate::models::OpenAIMessage;
use crate::models::OpenAIMessageView;
use crate::models::OpenAIRequest;
use crate::models::OpenAIRequestView;
use crate::models::OpenAIResponse;
use crate::text::chars_of;
use crate::text::contains;
use crate::text::contains_text;
use crate::text::decimal_of;
use crate::text::extend_chars;
use crate::text::push_decimal;
use crate::text::string_of;
use crate::text::trim_end;
use crate::text::trim_end_of;
use vstd::prelude::*;

verus! {

/// The time allowed for one request when the settings give none, in seconds.
pub const DEFAULT_TIMEOUT_SECS: u64 = 300;

/// The sampling temperature when the settings give none, in thousandths.
pub const DEFAULT_TEMPERATURE: u32 = 300;

/// The most tokens of an answer when the settings give no number.
pub const DEFAULT_MAX_TOKENS: u32 = 1000;

/// How often a request is sent before a rate limit ends the call.
pub const MAX_ATTEMPTS: u32 = 3;

/// How long the client waits after a rate limit, in seconds.
pub const BACKOFF_SECS: u64 = 20;

/// One more than `attempts`, as far as the type reaches.
pub open spec fn one_more(attempts: u32) -> u32 {
    if attempts < u32::MAX {
        (attempts + 1) as u32
    } else {
        attempts
    }
}

/// The protocol that a backend speaks.
#[derive(Clone, Copy, Debug, PartialEq, Eq, Structural)]
pub enum Backend {
    /// A chat of a system and a user message, with a bearer token.
    ChatCompletion,
    /// A single prompt, sent to `/api/generate` below the endpoint.
    Generate,
}

/// What went wrong in a grading call.
#[derive(Clone, Copy, Debug, PartialEq, Eq, Structural)]
pub enum ErrorKind {
    /// The backend answered with an error, or with nothing of use.
    Backend,
    /// The request could not be completed.
    Connection,
    /// The answer could not be read as a grade.
    Parse,
    /// An event arrived that the call was not waiting for.
    UnexpectedEvent,
}

/// Why a grading call failed.
#[derive(Debug)]
pub struct GradingError {
    pub kind: ErrorKind,
    pub message: String,
}

/// What a `GradingError` holds.
pub struct GradingErrorView {
    pub kind: ErrorKind,
    pub message: Seq<char>,
}

impl View for GradingError {
    type V = GradingErrorView;

    open spec fn view(&self) -> GradingErrorView {
        GradingErrorView { kind: self.kind, message: self.message@ }
    }
}

/// A chat-completion request to send.
#[derive(Debug)]
pub struct ChatCall {
    pub url: String,
    /// The value of the `Authorization` header.
    pub authorization: String,
    pub timeout_secs: u64,
    pub body: OpenAIRequest,
}

/// What a `ChatCall` holds.
pub struct ChatCallView {
    pub url: Seq<char>,
    pub authorization: Seq<char>,
    pub timeout_secs: u64,
    pub body: OpenAIRequestView,
}

impl View for ChatCall {
    type V = ChatCallView;

    open spec fn view(&self) -> ChatCallView {
        ChatCallView {
            url: self.url@,
            authorization: self.authorization@,
            timeout_secs: self.timeout_secs,
            body: self.body@,
        }
    }
}

/// A generate request to send.
#[derive(Debug)]
pub struct GenerateCall {
    pub url: String,
    pub timeout_secs: u64,
    pub body: OllamaRequest,
}

/// What a `GenerateCall` holds.
pub struct GenerateCallView {
    pub url: Seq<char>,
    pub timeout_secs: u64,
    pub body: OllamaRequestView,
}

impl View for GenerateCall {
    type V = GenerateCallView;

    open spec fn view(&self) -> GenerateCallView {
        GenerateCallView { url: self.url@, timeout_secs: self.timeout_secs, body: self.body@ }
    }
}

/// What the caller is to do next.
#[derive(Debug)]
pub enum Action {
    /// Send the request as JSON with the header `Content-Type: application/json`.
    SendChat(ChatCall),
    /// Send the request as JSON with the header `Content-Type: application/json`.
    SendGenerate(GenerateCall),
    /// Wait, then report `Event::Slept`.
    Sleep { seconds: u64 },
    /// The call is over.
    Finish(Result<GradingResult, GradingError>),
}

/// What an `Action` holds.
pub enum ActionView {
    SendChat(ChatCallView),
    SendGenerate(GenerateCallView),
    Sleep { seconds: u64 },
    Finish(Result<GradingResultView, GradingErrorView>),
}

/// What the outcome of a call holds.
pub open spec fn graded_view(outcome: Result<GradingResult, GradingError>) -> Result<
    GradingResultView,
    GradingErrorView,
> {
    match outcome {
        Ok(result) => Ok(result@),
        Err(error) => Err(error@),
    }
}

impl View for Action {
    type V = ActionView;

    open spec fn view(&self) -> ActionView {
        match self {
            Action::SendChat(call) => ActionView::SendChat(call@),
            Action::SendGenerate(call) => ActionView::SendGenerate(call@),
            Action::Sleep { seconds } => ActionView::Sleep { seconds: *seconds },
            Action::Finish(outcome) => ActionView::Finish(graded_view(*outcome)),
        }
    }
}

/// What has happened since the last action.
#[derive(Debug)]
pub enum Event {
    /// Nothing yet: the call begins.
    Start,
    /// The chat backend answered with success, and this is its body.
    ChatReply(OpenAIResponse),
    /// The generate backend answered with success, and this is its body.
    GenerateReply(OllamaResponse),
    /// The backend answered with another status, and this is the text of its body.
    HttpError { body: String },
    /// The request could not be completed: no answer came.
    Unreachable { reason: String },
    /// An answer came, and its body could not be read or decoded.
    Unreadable { reason: String },
    /// The wait is over.
    Slept,
}

/// Where a grading call stands.
#[derive(Clone, Copy, Debug, PartialEq, Eq, Structural)]
pub enum Phase {
    /// Nothing has been sent.
    Fresh,
    /// A request is out.
    Awaiting,
    /// The caller waits before the request is sent again.
    Backoff,
    /// The call is over.
    Done,
}

/// The state of one grading call.
#[derive(Clone, Copy, Debug, PartialEq, Eq, Structural)]
pub struct Exchange {
    /// How many requests have been sent.
    pub attempts: u32,
    pub phase: Phase,
}

impl Exchange {
    /// The state of a call that has not begun.
    pub open spec fn fresh() -> Exchange {
        Exchange { attempts: 0, phase: Phase::Fresh }
    }

    /// Whether the state is one that a call can be in: no more requests have
    /// been sent than are allowed, none before the call begins, and at least
    /// one where an answer or the end of a wait is due.
    pub open spec fn wf(self) -> bool {
        match self.phase {
            Phase::Fresh => self.attempts == 0,
            Phase::Awaiting => 1 <= self.attempts <= MAX_ATTEMPTS,
            Phase::Backoff => 1 <= self.attempts < MAX_ATTEMPTS,
            Phase::Done => self.attempts <= MAX_ATTEMPTS,
        }
    }

    /// A bound on the steps that a call in this state still takes.
    pub open spec fn steps_left(self) -> nat {
        match self.phase {
            Phase::Fresh => (2 * MAX_ATTEMPTS + 1) as nat,
            Phase::Awaiting => (2 * (MAX_ATTEMPTS - self.attempts) + 1) as nat,
            Phase::Backoff => (2 * (MAX_ATTEMPTS - self.attempts)) as nat,
            Phase::Done => 0,
        }
    }

    /// The state of a call that has not begun.
    pub fn new() -> (r: Exchange)
        ensures
            r == Exchange::fresh(),
            r.wf(),
    {
        Exchange { attempts: 0, phase: Phase::Fresh }
    }
}

/// The backend that an endpoint names: the chat protocol where it holds
/// `openai.com`, the generate protocol elsewhere.
pub open spec fn backend_for(endpoint: Seq<char>) -> Backend {
    if contains_text(endpoint, "openai.com"@) {
        Backend::ChatCompletion
    } else {
        Backend::Generate
    }
}

/// The time allowed for one request under the settings.
pub open spec fn timeout_of(app_config: Option<AppConfig>) -> u64 {
    match app_config {
        Some(AppConfig { ai: Some(ai), .. }) => match ai.timeout_secs {
            Some(t) => t,
            None => DEFAULT_TIMEOUT_SECS,
        },
        _ => DEFAULT_TIMEOUT_SECS,
    }
}

/// The sampling temperature under the settings.
pub open spec fn temperature_of(app_config: Option<AppConfig>) -> u32 {
    match app_config {
        Some(AppConfig { ai: Some(ai), .. }) => match ai.temperature {
            Some(t) => t,
            None => DEFAULT_TEMPERATURE,
        },
        _ => DEFAULT_TEMPERATURE,
    }
}

/// The most tokens of an answer under the settings.
pub open spec fn max_tokens_of(app_config: Option<AppConfig>) -> u32 {
    match app_config {
        Some(AppConfig { ai: Some(ai), .. }) => match ai.max_tokens {
            Some(t) => t,
            None => DEFAULT_MAX_TOKENS,
        },
        _ => DEFAULT_MAX_TOKENS,
    }
}

/// The settings as `build_grading_prompt` takes them.
pub open spec fn settings_ref(app_config: &Option<AppConfig>) -> Option<&AppConfig> {
    match app_config {
        Some(cfg) => Some(cfg),
        None => None,
    }
}

/// What the system message of a chat says.
pub open spec fn system_prompt() -> Seq<char> {
    "You are an expert programming instructor. Grade the student submission according to the provided criteria and return a JSON response with the specified fields."@
}

/// Whether the body of an error names a rate limit.
pub open spec fn is_rate_limited(body: Seq<char>) -> bool {
    contains_text(body, "rate_limit_exceeded"@) || contains_text(body, "Rate limit reached"@)
}

/// What is said of a reply that could not be read.
pub open spec fn parse_error_message(error: ParseError, reply: Seq<char>) -> Seq<char> {
    if error == ParseError::NoJson {
        "No valid JSON found in response"@
    } else {
        "Failed to parse grading response: "@ + match json_text_of(reply) {
            Some(json_text) => json_text,
            None => Seq::empty(),
        }
    }
}

/// The outcome of a call whose backend answered `reply`.
pub open spec fn graded_reply(reply: Seq<char>, strategy: GradingStrategy) -> Result<
    GradingResultView,
    GradingErrorView,
> {
    match parse_outcome(reply, strategy) {
        Ok(result) => Ok(result),
        Err(error) => Err(
            GradingErrorView { kind: ErrorKind::Parse, message: parse_error_message(error, reply) },
        ),
    }
}

/// An error of the backend with the message `message`.
pub open spec fn backend_error(message: Seq<char>) -> Result<GradingResultView, GradingErrorView> {
    Err(GradingErrorView { kind: ErrorKind::Backend, message })
}

/// The outcome of an event that the call was not waiting for.
pub open spec fn unexpected() -> (Exchange, ActionView) {
    (
        Exchange { attempts: 0, phase: Phase::Done },
        ActionView::Finish(
            Err(
                GradingErrorView {
                    kind: ErrorKind::UnexpectedEvent,
                    message: "Unexpected event for this grading call"@,
                },
            ),
        ),
    )
}

/// The client of an AI backend.
#[derive(Debug)]
pub struct AIClient {
    pub model_endpoint: String,
    pub backend: Backend,
    pub app_config: Option<AppConfig>,
    /// The bearer token of the chat backend.
    pub api_key: String,
}

impl AIClient {
    /// Whether the backend is the one that the endpoint names.
    pub open spec fn wf(&self) -> bool {
        self.backend == backend_for(self.model_endpoint@)
    }

    /// The chat request for `request`.
    pub open spec fn chat_call_of(&self, request: GradingRequestView) -> ChatCallView {
        ChatCallView {
            url: self.model_endpoint@,
            authorization: "Bearer "@ + self.api_key@,
            timeout_secs: timeout_of(self.app_config),
            body: OpenAIRequestView {
                model: "gpt-3.5-turbo"@,
                messages: seq![
                    OpenAIMessageView { role: "system"@, content: system_prompt() },
                    OpenAIMessageView {
                        role: "user"@,
                        content: prompt_of(request, template_of(settings_ref(&self.app_config))),
                    },
                ],
                temperature: temperature_of(self.app_config),
                max_tokens: max_tokens_of(self.app_config),
            },
        }
    }

    /// The generate request for `request`.
    pub open spec fn generate_call_of(&self, request: GradingRequestView) -> GenerateCallView {
        GenerateCallView {
            url: trim_end_of(self.model_endpoint@, '/') + "/api/generate"@,
            timeout_secs: timeout_of(self.app_config),
            body: OllamaRequestView {
                model: "qwen2.5:0.5b"@,
                prompt: prompt_of(request, template_of(settings_ref(&self.app_config))),
                stream: false,
            },
        }
    }

    /// The next state and action of a call to the chat backend.
    ///
    /// The request is sent at the start and after each wait. A successful
    /// answer is graded by its first choice. An error that names a rate limit
    /// is answered by a wait while fewer than `MAX_ATTEMPTS` requests have been
    /// sent, and ends the call after that; any other error ends it at once.
    pub open spec fn chat_step(
        &self,
        request: GradingRequestView,
        strategy: GradingStrategy,
        exchange: Exchange,
        event: Event,
    ) -> (Exchange, ActionView) {
        let done = Exchange { attempts: exchange.attempts, phase: Phase::Done };
        match (exchange.phase, event) {
            (Phase::Fresh, Event::Start) | (Phase::Backoff, Event::Slept) => (
                Exchange { attempts: one_more(exchange.attempts), phase: Phase::Awaiting },
                ActionView::SendChat(self.chat_call_of(request)),
            ),
            (Phase::Awaiting, Event::ChatReply(response)) => (
                done,
                ActionView::Finish(
                    if response.choices@.len() == 0 {
                        backend_error("No response from OpenAI"@)
                    } else {
                        graded_reply(response.choices@[0].message.content@, strategy)
                    },
                ),
            ),
            (Phase::Awaiting, Event::HttpError { body }) => if is_rate_limited(body@) {
                if exchange.attempts < MAX_ATTEMPTS {
                    (
                        Exchange { attempts: exchange.attempts, phase: Phase::Backoff },
                        ActionView::Sleep { seconds: BACKOFF_SECS },
                    )
                } else {
                    (
                        done,
                        ActionView::Finish(
                            backend_error(
                                "OpenAI API error after "@ + decimal_of(exchange.attempts as nat)
                                    + " attempts: "@ + body@,
                            ),
                        ),
                    )
                }
            } else {
                (done, ActionView::Finish(backend_error("OpenAI API error: "@ + body@)))
            },
            (Phase::Awaiting, Event::Unreachable { reason }) => (
                done,
                ActionView::Finish(
                    Err(
                        GradingErrorView {
                            kind: ErrorKind::Connection,
                            message: "Failed to send request to OpenAI API"@,
                        },
                    ),
                ),
            ),
            (Phase::Awaiting, Event::Unreadable { reason }) => (
                done,
                ActionView::Finish(backend_error(reason@)),
            ),
            _ => unexpected(),
        }
    }

    /// The next state and action of a call to the generate backend.
    ///
    /// The request is sent once. A successful answer is graded. When no
    /// answer comes, the mock result stands in for it. An error ends the call.
    pub open spec fn generate_step(
        &self,
        request: GradingRequestView,
        strategy: GradingStrategy,
        exchange: Exchange,
        event: Event,
    ) -> (Exchange, ActionView) {
        let done = Exchange { attempts: exchange.attempts, phase: Phase::Done };
        match (exchange.phase, event) {
            (Phase::Fresh, Event::Start) => (
                Exchange { attempts: 1, phase: Phase::Awaiting },
                ActionView::SendGenerate(self.generate_call_of(request)),
            ),
            (Phase::Awaiting, Event::GenerateReply(response)) => (
                done,
                ActionView::Finish(graded_reply(response.response@, strategy)),
            ),
            (Phase::Awaiting, Event::HttpError { body }) => (
                done,
                ActionView::Finish(backend_error("Ollama API error: "@ + body@)),
            ),
            (Phase::Awaiting, Event::Unreachable { reason }) => (
                done,
                ActionView::Finish(Ok(mock_result_of(request.filename))),
            ),
            (Phase::Awaiting, Event::Unreadable { reason }) => (
                done,
                ActionView::Finish(backend_error(reason@)),
            ),
            _ => unexpected(),
        }
    }

    /// The next state and action of a call.
    pub open spec fn step(
        &self,
        request: GradingRequestView,
        strategy: GradingStrategy,
        exchange: Exchange,
        event: Event,
    ) -> (Exchange, ActionView) {
        match self.backend {
            Backend::ChatCompletion => self.chat_step(request, strategy, exchange, event),
            Backend::Generate => self.generate_step(request, strategy, exchange, event),
        }
    }

    /// A call stays within its bounds and comes nearer to its end with every
    /// step: from a state that a call can be in, a step leads to such a state
    /// again, no more than `MAX_ATTEMPTS` requests are ever sent, and unless the
    /// step ends the call, fewer steps are left after it than before.
    pub proof fn lemma_step_progress(
        &self,
        request: GradingRequestView,
        strategy: GradingStrategy,
        exchange: Exchange,
        event: Event,
    )
        requires
            exchange.wf(),
        ensures
            self.step(request, strategy, exchange, event).0.wf(),
            self.step(request, strategy, exchange, event).0.attempts <= MAX_ATTEMPTS,
            self.step(request, strategy, exchange, event).1 is Finish <==> self.step(
                request,
                strategy,
                exchange,
                event,
            ).0.phase == Phase::Done,
            !(self.step(request, strategy, exchange, event).1 is Finish) ==> self.step(
                request,
                strategy,
                exchange,
                event,
            ).0.steps_left() < exchange.steps_left(),
    {
    }

    /// The first step of a call sends a request.
    pub proof fn lemma_first_step_sends(
        &self,
        request: GradingRequestView,
        strategy: GradingStrategy,
    )
        ensures
            self.backend == Backend::ChatCompletion ==> self.step(
                request,
                strategy,
                Exchange::fresh(),
                Event::Start,
            ) == (
                Exchange { attempts: 1, phase: Phase::Awaiting },
                ActionView::SendChat(self.chat_call_of(request)),
            ),
            self.backend == Backend::Generate ==> self.step(
                request,
                strategy,
                Exchange::fresh(),
                Event::Start,
            ) == (
                Exchange { attempts: 1, phase: Phase::Awaiting },
                ActionView::SendGenerate(self.generate_call_of(request)),
            ),
    {
    }

    /// When the generate backend cannot be reached, the call ends with the
    /// mock result for the submission, whatever the strategy.
    pub proof fn lemma_unreachable_generate_backend_gives_mock(
        &self,
        request: GradingRequestView,
        strategy: GradingStrategy,
        exchange: Exchange,
        reason: String,
    )
        requires
            self.backend == Backend::Generate,
            exchange.phase == Phase::Awaiting,
        ensures
            self.step(request, strategy, exchange, Event::Unreachable { reason }).1
                == ActionView::Finish(Ok(mock_result_of(request.filename))),
            mock_result_of(request.filename).correctness == 800,
            mock_result_of(request.filename).style == 700,
            mock_result_of(request.filename).edge_cases == 600,
            mock_result_of(request.filename).total == 730,
    {
    }

    /// An error status of the backend that names no rate limit ends the call
    /// with an error at once.
    pub proof fn lemma_error_status_ends_call(
        &self,
        request: GradingRequestView,
        strategy: GradingStrategy,
        exchange: Exchange,
        body: String,
    )
        requires
            exchange.phase == Phase::Awaiting,
            !is_rate_limited(body@),
        ensures
            self.step(request, strategy, exchange, Event::HttpError { body }).1 matches ActionView::Finish(
                Err(error),
            ) && error.kind == ErrorKind::Backend,
    {
    }

    /// The client of the backend at `model_endpoint`, without a bearer token.
    pub fn new(model_endpoint: &str, app_config: Option<AppConfig>) -> (r: Result<Self, GradingError>)
        ensures
            r is Ok,
            r->Ok_0.wf(),
            r->Ok_0.model_endpoint@ == model_endpoint@,
            r->Ok_0.app_config == app_config,
            r->Ok_0.api_key@ == Seq::<char>::empty(),
    {
        let endpoint = chars_of(model_endpoint);
        let marker = chars_of("openai.com");
        let backend = if contains(&endpoint, &marker) {
            Backend::ChatCompletion
        } else {
            Backend::Generate
        };
        Ok(
            AIClient {
                model_endpoint: String::from_str(model_endpoint),
                backend,
                app_config,
                api_key: String::new(),
            },
        )
    }

    /// The same client with the bearer token `api_key`.
    pub fn with_api_key(self, api_key: String) -> (r: Self)
        ensures
            r.model_endpoint == self.model_endpoint,
            r.backend == self.backend,
            r.app_config == self.app_config,
            r.api_key == api_key,
    {
        AIClient {
            model_endpoint: self.model_endpoint,
            backend: self.backend,
            app_config: self.app_config,
            api_key,
        }
    }

    /// The settings as `build_grading_prompt` takes them.
    fn settings(&self) -> (r: Option<&AppConfig>)
        ensures
            r == settings_ref(&self.app_config),
    {
        match &self.app_config {
            Some(cfg) => Some(cfg),
            None => None,
        }
    }

    /// The time allowed for one request.
    fn timeout_secs(&self) -> (r: u64)
        ensures
            r == timeout_of(self.app_config),
    {
        match &self.app_config {
            Some(cfg) => match &cfg.ai {
                Some(ai) => match ai.timeout_secs {
                    Some(t) => t,
                    None => DEFAULT_TIMEOUT_SECS,
                },
                None => DEFAULT_TIMEOUT_SECS,
            },
            None => DEFAULT_TIMEOUT_SECS,
        }
    }

    /// The sampling temperature.
    fn temperature(&self) -> (r: u32)
        ensures
            r == temperature_of(self.app_config),
    {
        match &self.app_config {
            Some(cfg) => match &cfg.ai {
                Some(ai) => match ai.temperature {
                    Some(t) => t,
                    None => DEFAULT_TEMPERATURE,
                },
                None => DEFAULT_TEMPERATURE,
            },
            None => DEFAULT_TEMPERATURE,
        }
    }

    /// The most tokens of an answer.
    fn max_tokens(&self) -> (r: u32)
        ensures
            r == max_tokens_of(self.app_config),
    {
        match &self.app_config {
            Some(cfg) => match &cfg.ai {
                Some(ai) => match ai.max_tokens {
                    Some(t) => t,
                    None => DEFAULT_MAX_TOKENS,
                },
                None => DEFAULT_MAX_TOKENS,
            },
            None => DEFAULT_MAX_TOKENS,
        }
    }

    /// The chat request for `request`.
    pub fn chat_call(&self, request: &GradingRequest) -> (call: ChatCall)
        ensures
            call@ == self.chat_call_of(request@),
    {
        let prompt = build_grading_prompt(request, self.settings());
        let mut authorization = String::from_str("Bearer ");
        authorization.append(self.api_key.as_str());
        let mut messages: Vec<OpenAIMessage> = Vec::new();
        messages.push(
            OpenAIMessage {
                role: String::from_str("system"),
                content: String::from_str(
                    "You are an expert programming instructor. Grade the student submission according to the provided criteria and return a JSON response with the specified fields.",
                ),
            },
        );
        messages.push(OpenAIMessage { role: String::from_str("user"), content: prompt });
        let call = ChatCall {
            url: self.model_endpoint.clone(),
            authorization,
            timeout_secs: self.timeout_secs(),
            body: OpenAIRequest {
                model: String::from_str("gpt-3.5-turbo"),
                messages,
                temperature: self.temperature(),
                max_tokens: self.max_tokens(),
            },
        };
        assert(call@.body.messages =~= self.chat_call_of(request@).body.messages);
        call
    }

    /// The generate request for `request`.
    pub fn generate_call(&self, request: &GradingRequest) -> (call: GenerateCall)
        ensures
            call@ == self.generate_call_of(request@),
    {
        let prompt = build_grading_prompt(request, self.settings());
        let endpoint = chars_of(self.model_endpoint.as_str());
        let mut url = trim_end(&endpoint, '/');
        let path = chars_of("/api/generate");
        extend_chars(&mut url, &path);
        GenerateCall {
            url: string_of(&url),
            timeout_secs: self.timeout_secs(),
            body: OllamaRequest { model: String::from_str("qwen2.5:0.5b"), prompt, stream: false },
        }
    }

    /// One step of a grading call: from the state of the call and the event
    /// that has just happened to the next state and the next action.
    pub fn grade_submission(
        &self,
        request: &GradingRequest,
        strategy: &GradingStrategy,
        exchange: Exchange,
        event: Event,
    ) -> (r: (Exchange, Action))
        ensures
            (r.0, r.1@) == self.step(request@, *strategy, exchange, event),
    {
        match self.backend {
            Backend::ChatCompletion => self.call_openai_api(request, strategy, exchange, event),
            Backend::Generate => self.call_ollama_api(request, strategy, exchange, event),
        }
    }

    /// One step of a call to the chat backend.
    pub fn call_openai_api(
        &self,
        request: &GradingRequest,
        strategy: &GradingStrategy,
        exchange: Exchange,
        event: Event,
    ) -> (r: (Exchange, Action))
        ensures
            (r.0, r.1@) == self.chat_step(request@, *strategy, exchange, event),
    {
        let done = Exchange { attempts: exchange.attempts, phase: Phase::Done };
        match (exchange.phase, event) {
            (Phase::Fresh, Event::Start) | (Phase::Backoff, Event::Slept) => {
                let attempts: u32 = if exchange.attempts < u32::MAX {
                    exchange.attempts + 1
                } else {
                    exchange.attempts
                };
                (
                    Exchange { attempts, phase: Phase::Awaiting },
                    Action::SendChat(self.chat_call(request)),
                )
            },
            (Phase::Awaiting, Event::ChatReply(response)) => {
                let outcome = if response.choices.len() == 0 {
                    Err(backend_failure(String::from_str("No response from OpenAI")))
                } else {
                    grade_reply(response.choices[0].message.content.as_str(), request, strategy)
                };
                (done, Action::Finish(outcome))
            },
            (Phase::Awaiting, Event::HttpError { body }) => {
                if rate_limited(body.as_str()) {
                    if exchange.attempts < MAX_ATTEMPTS {
                        (
                            Exchange { attempts: exchange.attempts, phase: Phase::Backoff },
                            Action::Sleep { seconds: BACKOFF_SECS },
                        )
                    } else {
                        let mut message = chars_of("OpenAI API error after ");
                        push_decimal(&mut message, exchange.attempts as u64);
                        let middle = chars_of(" attempts: ");
                        extend_chars(&mut message, &middle);
                        let tail = chars_of(body.as_str());
                        extend_chars(&mut message, &tail);
                        (done, Action::Finish(Err(backend_failure(string_of(&message)))))
                    }
                } else {
                    let mut message = String::from_str("OpenAI API error: ");
                    message.append(body.as_str());
                    (done, Action::Finish(Err(backend_failure(message))))
                }
            },
            (Phase::Awaiting, Event::Unreachable { reason }) => (
                done,
                Action::Finish(
                    Err(
                        GradingError {
                            kind: ErrorKind::Connection,
                            message: String::from_str("Failed to send request to OpenAI API"),
                        },
                    ),
                ),
            ),
            (Phase::Awaiting, Event::Unreadable { reason }) => (
                done,
                Action::Finish(Err(backend_failure(reason))),
            ),
            _ => unexpected_event(),
        }
    }

    /// One step of a call to the generate backend.
    pub fn call_ollama_api(
        &self,
        request: &GradingRequest,
        strategy: &GradingStrategy,
        exchange: Exchange,
        event: Event,
    ) -> (r: (Exchange, Action))
        ensures
            (r.0, r.1@) == self.generate_step(request@, *strategy, exchange, event),
    {
        let done = Exchange { attempts: exchange.attempts, phase: Phase::Done };
        match (exchange.phase, event) {
            (Phase::Fresh, Event::Start) => (
                Exchange { attempts: 1, phase: Phase::Awaiting },
                Action::SendGenerate(self.generate_call(request)),
            ),
            (Phase::Awaiting, Event::GenerateReply(response)) => (
                done,
                Action::Finish(grade_reply(response.response.as_str(), request, strategy)),
            ),
            (Phase::Awaiting, Event::HttpError { body }) => {
                let mut message = String::from_str("Ollama API error: ");
                message.append(body.as_str());
                (done, Action::Finish(Err(backend_failure(message))))
            },
            (Phase::Awaiting, Event::Unreachable { reason }) => (
                done,
                Action::Finish(Ok(generate_mock_result(request.filename.as_str()))),
            ),
            (Phase::Awaiting, Event::Unreadable { reason }) => (
                done,
                Action::Finish(Err(backend_failure(reason))),
            ),
            _ => unexpected_event(),
        }
    }
}

/// An error of the backend with the message `message`.
pub fn backend_failure(message: String) -> (e: GradingError)
    ensures
        e@ == (GradingErrorView { kind: ErrorKind::Backend, message: message@ }),
{
    GradingError { kind: ErrorKind::Backend, message }
}

/// The outcome of an event that the call was not waiting for.
pub fn unexpected_event() -> (r: (Exchange, Action))
    ensures
        (r.0, r.1@) == unexpected(),
{
    (
        Exchange { attempts: 0, phase: Phase::Done },
        Action::Finish(
            Err(
                GradingError {
                    kind: ErrorKind::UnexpectedEvent,
                    message: String::from_str("Unexpected event for this grading call"),
                },
            ),
        ),
    )
}

/// Whether the body of an error names a rate limit.
pub fn rate_limited(body: &str) -> (r: bool)
    ensures
        r == is_rate_limited(body@),
{
    let text = chars_of(body);
    let first = chars_of("rate_limit_exceeded");
    let second = chars_of("Rate limit reached");
    contains(&text, &first) || contains(&text, &second)
}

/// The outcome of a call whose backend answered `reply`.
pub fn grade_reply(reply: &str, request: &GradingRequest, strategy: &GradingStrategy) -> (r: Result<
    GradingResult,
    GradingError,
>)
    ensures
        graded_view(r) == graded_reply(reply@, *strategy),
{
    match parse_grading_response(reply, request.filename.as_str(), strategy) {
        Ok(result) => Ok(result),
        Err(error) => {
            let message = match error {
                ParseError::NoJson => String::from_str("No valid JSON found in response"),
                _ => {
                    let mut message = String::from_str("Failed to parse grading response: ");
                    match extract_json_text(reply) {
                        Some(json_text) => {
                            message.append(json_text.as_str());
                        },
                        None => {},
                    }
                    message
                },
            };
            Err(GradingError { kind: ErrorKind::Parse, message })
        },
    }
}

} // verus!
