//! The course of one call of the Web API, from the first look at the token to the value or the
//! error that the caller gets. Each step takes what came of the last action and names the next one.

use vstd::prelude::*;

use crate::errors::{
    error_text, ApiErrorView, RequestError, RequestErrorView, SpotifyApiError, StatusCode,
};
use crate::gate::{clock_in_range, lemma_window_holds, ForcedRefreshGate, NANOS_PER_SECOND};
use crate::json::{parsed_json, Json, JsonView};
use crate::requests::{
    asked_seconds, fail_if_held_back, held_back, lemma_header_is_obeyed, lemma_json_is_read,
    lemma_other_content_is_not_read, outcome_view, rate_limited, rate_limited_error,
    retry_after_seconds, success_value, value_of_success, SpotifyApiRequest,
};
use crate::text::{ascii_lowercase, blank, contains_text, decimal, lemma_trimmed};

verus! {

/// How often a request is sent before a failing network ends the call.
pub const MAX_ATTEMPTS: u8 = 4;

/// Seconds before the request is sent once more after a refused token.
pub const UNAUTHORIZED_RETRY_SECONDS: u64 = 1;

/// What a look at the token brought.
pub enum Refresh {
    /// The token is good.
    Fresh,
    /// There is no way to get another token for this call.
    Unavailable,
    /// Getting another token failed.
    Failed(RequestError),
}

/// What a [`Refresh`] stands for.
pub enum RefreshView {
    Fresh,
    Unavailable,
    Failed(RequestErrorView),
}

impl View for Refresh {
    type V = RefreshView;

    open spec fn view(&self) -> RefreshView {
        match self {
            Refresh::Fresh => RefreshView::Fresh,
            Refresh::Unavailable => RefreshView::Unavailable,
            Refresh::Failed(error) => RefreshView::Failed(error@),
        }
    }
}

/// An answer: its status, two of its headers, and its body or why that could not be read.
pub struct Answer {
    pub status: StatusCode,
    pub content_type: Option<String>,
    pub retry_after: Option<String>,
    pub body: Result<String, String>,
}

/// What an [`Answer`] stands for.
pub struct AnswerView {
    pub status: u16,
    pub content_type: Option<Seq<char>>,
    pub retry_after: Option<Seq<char>>,
    pub body: Result<Seq<char>, Seq<char>>,
}

impl View for Answer {
    type V = AnswerView;

    open spec fn view(&self) -> AnswerView {
        AnswerView {
            status: self.status@,
            content_type: self.content_type.deep_view(),
            retry_after: self.retry_after.deep_view(),
            body: match self.body {
                Ok(body) => Ok(body@),
                Err(message) => Err(message@),
            },
        }
    }
}

/// What came of an action.
pub enum Event {
    /// The token was looked at.
    Refreshed(Refresh),
    /// There was no token to send the request with.
    NoToken,
    /// The request could not be sent. Some failures of the network are worth another attempt.
    SendFailed { retryable: bool, message: String },
    /// The request was answered.
    Answered(Answer),
}

/// Whether a request that could not be sent is worth another attempt, from where it failed: on the
/// way to the service, by taking too long, or while it was sent.
pub fn send_failure_is_retryable(connect: bool, timeout: bool, request: bool) -> (retryable: bool)
    ensures
        retryable == (connect || timeout || request),
{
    connect || timeout || request
}

/// What an [`Event`] stands for.
pub enum EventView {
    Refreshed(RefreshView),
    NoToken,
    SendFailed { retryable: bool, message: Seq<char> },
    Answered(AnswerView),
}

impl View for Event {
    type V = EventView;

    open spec fn view(&self) -> EventView {
        match self {
            Event::Refreshed(refresh) => EventView::Refreshed(refresh@),
            Event::NoToken => EventView::NoToken,
            Event::SendFailed { retryable, message } => EventView::SendFailed {
                retryable: *retryable,
                message: message@,
            },
            Event::Answered(answer) => EventView::Answered(answer@),
        }
    }
}

/// What is to be done next.
pub enum Action {
    /// Look at the token, and get another one: always, or only where it is about to expire.
    Refresh { force: bool },
    /// Wait, then send the request with the token at hand.
    Send { after_seconds: u64 },
    /// The call is over.
    Finish(Result<Json, RequestError>),
}

/// What an [`Action`] stands for.
pub enum ActionView {
    Refresh { force: bool },
    Send { after_seconds: u64 },
    Finish(Result<JsonView, RequestErrorView>),
}

impl View for Action {
    type V = ActionView;

    open spec fn view(&self) -> ActionView {
        match self {
            Action::Refresh { force } => ActionView::Refresh { force: *force },
            Action::Send { after_seconds } => ActionView::Send { after_seconds: *after_seconds },
            Action::Finish(outcome) => ActionView::Finish(outcome_view(*outcome)),
        }
    }
}

/// How far a call has come: what it waits for.
pub enum Stage {
    /// For the first look at the token.
    Refreshing,
    /// For what comes of sending the request.
    Sending,
    /// For another token, because the service refused the one that was sent.
    ForcingRefresh { status: StatusCode, body: String },
    /// For nothing.
    Finished,
}

/// What a [`Stage`] stands for.
pub enum StageView {
    Refreshing,
    Sending,
    ForcingRefresh { status: u16, body: Seq<char> },
    Finished,
}

impl View for Stage {
    type V = StageView;

    open spec fn view(&self) -> StageView {
        match self {
            Stage::Refreshing => StageView::Refreshing,
            Stage::Sending => StageView::Sending,
            Stage::ForcingRefresh { status, body } => StageView::ForcingRefresh {
                status: status@,
                body: body@,
            },
            Stage::Finished => StageView::Finished,
        }
    }
}

/// One call. Its URL is there from the moment that the request may be sent.
pub struct Exchange {
    pub request: SpotifyApiRequest,
    pub url: Option<reqwest::Url>,
    pub attempt: u8,
    pub recovered: bool,
    pub stage: Stage,
}

/// What an [`Exchange`] stands for.
pub struct ExchangeView {
    pub address: Result<reqwest::Url, Seq<char>>,
    pub url: Option<reqwest::Url>,
    pub attempt: u8,
    pub recovered: bool,
    pub stage: StageView,
}

impl View for Exchange {
    type V = ExchangeView;

    open spec fn view(&self) -> ExchangeView {
        ExchangeView {
            address: self.request.spec_url(),
            url: self.url,
            attempt: self.attempt,
            recovered: self.recovered,
            stage: self.stage@,
        }
    }
}

/// The stage waits for this kind of event.
pub open spec fn expects(stage: StageView, event: EventView) -> bool {
    match stage {
        StageView::Refreshing => event is Refreshed,
        StageView::ForcingRefresh { .. } => event is Refreshed,
        StageView::Sending => !(event is Refreshed),
        StageView::Finished => false,
    }
}

/// A call and its session's limits after a step, and what is to be done next.
pub struct Step {
    pub exchange: ExchangeView,
    pub gate: ForcedRefreshGate,
    pub action: ActionView,
}

/// The call is over, with an outcome.
pub open spec fn finished(
    exchange: ExchangeView,
    gate: ForcedRefreshGate,
    outcome: Result<JsonView, RequestErrorView>,
) -> Step {
    Step {
        exchange: ExchangeView { stage: StageView::Finished, ..exchange },
        gate,
        action: ActionView::Finish(outcome),
    }
}

/// The request is sent (again), after a wait.
pub open spec fn sent(exchange: ExchangeView, gate: ForcedRefreshGate, after_seconds: u64) -> Step {
    Step {
        exchange: ExchangeView { stage: StageView::Sending, ..exchange },
        gate,
        action: ActionView::Send { after_seconds },
    }
}

/// The step after the first look at the token. The request is sent, unless its URL is no good or a
/// window without requests is open.
pub open spec fn after_first_refresh(
    exchange: ExchangeView,
    refresh: RefreshView,
    gate: ForcedRefreshGate,
    now: u128,
) -> Step {
    match refresh {
        RefreshView::Failed(error) => finished(exchange, gate, Err(error)),
        _ => match exchange.address {
            Err(message) => finished(exchange, gate, Err(RequestErrorView::Other(message))),
            Ok(url) => match held_back(gate, now) {
                Some(error) => finished(
                    ExchangeView { url: Some(url), ..exchange },
                    gate,
                    Err(error),
                ),
                None => sent(ExchangeView { url: Some(url), ..exchange }, gate, 0),
            },
        },
    }
}

/// The step after another token was asked for: the request is sent once more with it. Without it
/// the refusal stands, with the reason.
pub open spec fn after_forced_refresh(
    exchange: ExchangeView,
    status: u16,
    body: Seq<char>,
    refresh: RefreshView,
    gate: ForcedRefreshGate,
) -> Step {
    match refresh {
        RefreshView::Fresh => sent(exchange, gate, UNAUTHORIZED_RETRY_SECONDS),
        RefreshView::Unavailable => finished(
            exchange,
            gate,
            Err(
                RequestErrorView::Api(
                    ApiErrorView {
                        status,
                        body,
                        detail: Some("token refresh unavailable for this request"@),
                    },
                ),
            ),
        ),
        RefreshView::Failed(error) => finished(
            exchange,
            gate,
            Err(
                RequestErrorView::Api(
                    ApiErrorView {
                        status,
                        body,
                        detail: Some("token refresh failed: "@ + error_text(error)),
                    },
                ),
            ),
        ),
    }
}

/// The step after the request could not be sent: another attempt after a wait that grows, up to
/// the last attempt.
pub open spec fn after_failed_send(
    exchange: ExchangeView,
    retryable: bool,
    message: Seq<char>,
    gate: ForcedRefreshGate,
) -> Step {
    if retryable && exchange.attempt + 1 < MAX_ATTEMPTS {
        sent(
            ExchangeView { attempt: (exchange.attempt + 1) as u8, ..exchange },
            gate,
            (1 + exchange.attempt) as u64,
        )
    } else {
        finished(
            exchange,
            gate,
            Err(RequestErrorView::Other("Spotify API request failed: "@ + message)),
        )
    }
}

/// The body of an answer that is no success; nothing, where it could not be read.
pub open spec fn failure_body(body: Result<Seq<char>, Seq<char>>) -> Seq<char> {
    match body {
        Ok(body) => body,
        Err(_) => seq![],
    }
}

/// The step after an answer. A refused token is met once in a call: by another token, where one may
/// be forced, else by the same one. Too many requests hold all calls back for a while.
pub open spec fn after_answer(
    exchange: ExchangeView,
    answer: AnswerView,
    gate: ForcedRefreshGate,
    now: u128,
) -> Step {
    if 200 <= answer.status < 300 {
        finished(
            exchange,
            gate,
            match answer.body {
                Ok(body) => success_value(answer.content_type, body),
                Err(message) => Err(RequestErrorView::Other(message)),
            },
        )
    } else if answer.status == 401 && !exchange.recovered {
        let tried = ExchangeView { recovered: true, ..exchange };
        if gate.may_force(now) {
            Step {
                exchange: ExchangeView {
                    stage: StageView::ForcingRefresh {
                        status: answer.status,
                        body: failure_body(answer.body),
                    },
                    ..tried
                },
                gate: gate.forced(now),
                action: ActionView::Refresh { force: true },
            }
        } else {
            sent(tried, gate, UNAUTHORIZED_RETRY_SECONDS)
        }
    } else if answer.status == 429 {
        let seconds = asked_seconds(answer.retry_after);
        finished(
            exchange,
            gate.limited((seconds * NANOS_PER_SECOND) as u128, now),
            Err(rate_limited(seconds as nat)),
        )
    } else {
        finished(
            exchange,
            gate,
            Err(
                RequestErrorView::Api(
                    ApiErrorView {
                        status: answer.status,
                        body: failure_body(answer.body),
                        detail: None,
                    },
                ),
            ),
        )
    }
}

/// One step of a call.
pub open spec fn stepped(
    exchange: ExchangeView,
    event: EventView,
    gate: ForcedRefreshGate,
    now: u128,
) -> Step {
    match event {
        EventView::Refreshed(refresh) => match exchange.stage {
            StageView::ForcingRefresh { status, body } => after_forced_refresh(
                exchange,
                status,
                body,
                refresh,
                gate,
            ),
            _ => after_first_refresh(exchange, refresh, gate, now),
        },
        EventView::NoToken => finished(
            exchange,
            gate,
            Err(RequestErrorView::Other("No access token available"@)),
        ),
        EventView::SendFailed { retryable, message } => after_failed_send(
            exchange,
            retryable,
            message,
            gate,
        ),
        EventView::Answered(answer) => after_answer(exchange, answer, gate, now),
    }
}

impl Exchange {
    /// A call that has not begun.
    pub fn new(request: SpotifyApiRequest) -> (exchange: Self)
        ensures
            exchange@ == (ExchangeView {
                address: request.spec_url(),
                url: None,
                attempt: 0,
                recovered: false,
                stage: StageView::Refreshing,
            }),
            exchange.request == request,
    {
        Exchange { request, url: None, attempt: 0, recovered: false, stage: Stage::Refreshing }
    }

    /// What a call begins with: a look at the token, without force.
    pub fn first_action(&self) -> (action: Action)
        ensures
            action@ == (ActionView::Refresh { force: false }),
    {
        Action::Refresh { force: false }
    }

    fn finish(&mut self, outcome: Result<Json, RequestError>) -> (action: Action)
        ensures
            final(self)@ == (ExchangeView { stage: StageView::Finished, ..old(self)@ }),
            final(self).request == old(self).request,
            action@ == ActionView::Finish(outcome_view(outcome)),
    {
        self.stage = Stage::Finished;
        Action::Finish(outcome)
    }

    fn send(&mut self, after_seconds: u64) -> (action: Action)
        ensures
            final(self)@ == (ExchangeView { stage: StageView::Sending, ..old(self)@ }),
            final(self).request == old(self).request,
            action@ == (ActionView::Send { after_seconds }),
    {
        self.stage = Stage::Sending;
        Action::Send { after_seconds }
    }

    fn first_refresh(&mut self, refresh: Refresh, gate: &ForcedRefreshGate, now: u128) -> (action:
        Action)
        ensures
            final(self).request == old(self).request,
            (Step { exchange: final(self)@, gate: *gate, action: action@ }) == after_first_refresh(
                old(self)@,
                refresh@,
                *gate,
                now,
            ),
    {
        match refresh {
            Refresh::Failed(error) => {
                return self.finish(Err(error));
            },
            _ => {},
        }
        match self.request.url() {
            Ok(url) => {
                self.url = Some(url);
            },
            Err(error) => {
                return self.finish(Err(error));
            },
        }
        match fail_if_held_back(gate, now) {
            Some(error) => self.finish(Err(error)),
            None => self.send(0),
        }
    }

    fn forced_refresh(
        &mut self,
        status: StatusCode,
        body: String,
        refresh: Refresh,
        gate: &ForcedRefreshGate,
    ) -> (action: Action)
        ensures
            final(self).request == old(self).request,
            (Step { exchange: final(self)@, gate: *gate, action: action@ }) == after_forced_refresh(
                old(self)@,
                status@,
                body@,
                refresh@,
                *gate,
            ),
    {
        match refresh {
            Refresh::Fresh => self.send(UNAUTHORIZED_RETRY_SECONDS),
            Refresh::Unavailable => {
                let detail = Some("token refresh unavailable for this request".to_owned());
                self.finish(Err(RequestError::Api(SpotifyApiError { status, body, detail })))
            },
            Refresh::Failed(error) => {
                let mut text = "token refresh failed: ".to_owned();
                let reason = error.text();
                text.append(reason.as_str());
                let detail = Some(text);
                self.finish(Err(RequestError::Api(SpotifyApiError { status, body, detail })))
            },
        }
    }

    fn answered(&mut self, answer: Answer, gate: &mut ForcedRefreshGate, now: u128) -> (action:
        Action)
        requires
            clock_in_range(now),
        ensures
            final(self).request == old(self).request,
            (Step { exchange: final(self)@, gate: *final(gate), action: action@ }) == after_answer(
                old(self)@,
                answer@,
                *old(gate),
                now,
            ),
    {
        let code = answer.status.as_u16();
        if answer.status.is_success() {
            return match &answer.body {
                Ok(body) => {
                    let outcome = value_of_success(&answer.content_type, body.as_str());
                    self.finish(outcome)
                },
                Err(message) => self.finish(Err(RequestError::Other(message.clone()))),
            };
        }
        let body = match &answer.body {
            Ok(body) => body.clone(),
            Err(_) => String::new(),
        };
        if code == 401 && !self.recovered {
            self.recovered = true;
            if gate.try_begin(now) {
                self.stage = Stage::ForcingRefresh { status: answer.status, body };
                return Action::Refresh { force: true };
            }
            return self.send(UNAUTHORIZED_RETRY_SECONDS);
        }
        if code == 429 {
            let seconds = retry_after_seconds(&answer.retry_after);
            gate.rate_limit_for(seconds as u128 * NANOS_PER_SECOND, now);
            return self.finish(Err(rate_limited_error(seconds as u128)));
        }
        self.finish(
            Err(RequestError::Api(SpotifyApiError { status: answer.status, body, detail: None })),
        )
    }

    /// Takes what came of the last action, and names the next one.
    pub fn step(&mut self, event: Event, gate: &mut ForcedRefreshGate, now: u128) -> (action: Action)
        requires
            expects(old(self)@.stage, event@),
            old(self).attempt < MAX_ATTEMPTS,
            clock_in_range(now),
        ensures
            final(self).request == old(self).request,
            final(self).attempt < MAX_ATTEMPTS,
            (Step { exchange: final(self)@, gate: *final(gate), action: action@ }) == stepped(
                old(self)@,
                event@,
                *old(gate),
                now,
            ),
    {
        match event {
            Event::Refreshed(refresh) => {
                let mut stage = Stage::Finished;
                core::mem::swap(&mut self.stage, &mut stage);
                match stage {
                    Stage::ForcingRefresh { status, body } => self.forced_refresh(
                        status,
                        body,
                        refresh,
                        gate,
                    ),
                    _ => self.first_refresh(refresh, gate, now),
                }
            },
            Event::NoToken => self.finish(
                Err(RequestError::Other("No access token available".to_owned())),
            ),
            Event::SendFailed { retryable, message } => {
                if retryable && self.attempt + 1 < MAX_ATTEMPTS {
                    let after_seconds: u64 = 1 + self.attempt as u64;
                    self.attempt = self.attempt + 1;
                    self.send(after_seconds)
                } else {
                    let mut text = "Spotify API request failed: ".to_owned();
                    text.append(message.as_str());
                    self.finish(Err(RequestError::Other(text)))
                }
            },
            Event::Answered(answer) => self.answered(answer, gate, now),
        }
    }
}

/// How many steps a call can still take.
pub open spec fn steps_left(exchange: ExchangeView) -> int {
    if exchange.stage is Finished {
        0
    } else {
        3 * (MAX_ATTEMPTS - exchange.attempt) + (if exchange.recovered {
            0int
        } else {
            2
        }) + (if exchange.stage is Sending {
            0int
        } else {
            1
        })
    }
}

/// Every call ends: whatever comes of its actions, each step leaves it fewer steps, and a call that
/// has not begun has fewer than sixteen.
pub proof fn lemma_exchange_ends(
    exchange: ExchangeView,
    event: EventView,
    gate: ForcedRefreshGate,
    now: u128,
)
    requires
        expects(exchange.stage, event),
        exchange.attempt < MAX_ATTEMPTS,
    ensures
        0 <= steps_left(stepped(exchange, event, gate, now).exchange) < steps_left(exchange) < 16,
        stepped(exchange, event, gate, now).exchange.attempt < MAX_ATTEMPTS,
        stepped(exchange, event, gate, now).exchange.stage is Finished <==> stepped(
            exchange,
            event,
            gate,
            now,
        ).action is Finish,
{
}

/// How many times a call can still send its request.
pub open spec fn sends_left(exchange: ExchangeView) -> int {
    let attempts = MAX_ATTEMPTS - exchange.attempt;
    let recovery = if exchange.recovered {
        0int
    } else {
        1
    };
    match exchange.stage {
        StageView::Refreshing => attempts + recovery,
        StageView::Sending => attempts - 1 + recovery,
        StageView::ForcingRefresh { .. } => attempts,
        StageView::Finished => 0,
    }
}

/// A call sends its request five times at most: four times into a failing network, and once more
/// after a refused token.
pub proof fn lemma_requests_are_bounded(
    exchange: ExchangeView,
    event: EventView,
    gate: ForcedRefreshGate,
    now: u128,
)
    requires
        expects(exchange.stage, event),
        exchange.attempt < MAX_ATTEMPTS,
        exchange.stage is ForcingRefresh ==> exchange.recovered,
    ensures
        ({
            let step = stepped(exchange, event, gate, now);
            &&& 0 <= sends_left(step.exchange)
            &&& step.action is Send ==> sends_left(step.exchange) == sends_left(exchange) - 1
            &&& sends_left(step.exchange) <= sends_left(exchange) <= MAX_ATTEMPTS + 1
            &&& step.exchange.stage is ForcingRefresh ==> step.exchange.recovered
        }),
{
}

/// A call meets a refused token once: having done so it never asks for another token, and a second
/// refusal is its error.
pub proof fn lemma_recovery_is_one_shot(
    exchange: ExchangeView,
    event: EventView,
    gate: ForcedRefreshGate,
    now: u128,
)
    requires
        expects(exchange.stage, event),
        exchange.attempt < MAX_ATTEMPTS,
    ensures
        stepped(exchange, event, gate, now).action == (ActionView::Refresh { force: true })
            ==> !exchange.recovered && stepped(exchange, event, gate, now).exchange.recovered,
        exchange.recovered ==> stepped(exchange, event, gate, now).exchange.recovered,
        event matches EventView::Answered(answer) && answer.status == 401 && exchange.recovered ==> {
            &&& stepped(exchange, event, gate, now).gate == gate
            &&& stepped(exchange, event, gate, now).action matches ActionView::Finish(
                Err(RequestErrorView::Api(error)),
            )
            &&& error.status == 401
        },
{
}

/// A refused token is met by a forced refresh at most once in a cooldown, over all calls of a
/// session: within it, the request goes out again with the token at hand, and no refresh is noted.
pub proof fn lemma_cooldown_spans_calls(
    first: ExchangeView,
    second: ExchangeView,
    answer: AnswerView,
    gate: ForcedRefreshGate,
    now: u128,
    then_now: u128,
)
    requires
        first.stage is Sending,
        second.stage is Sending,
        !first.recovered,
        !second.recovered,
        answer.status == 401,
        now <= then_now,
        then_now - now < gate.cooldown,
        gate.may_force(now),
    ensures
        ({
            let one = stepped(first, EventView::Answered(answer), gate, now);
            let two = stepped(second, EventView::Answered(answer), one.gate, then_now);
            &&& one.action == (ActionView::Refresh { force: true })
            &&& two.action == (ActionView::Send { after_seconds: UNAUTHORIZED_RETRY_SECONDS })
            &&& two.gate == one.gate
        }),
{
}

/// An answer of too many requests ends a call at once, and until the wait that it asks for is over
/// every other call of the session ends without a request.
pub proof fn lemma_too_many_requests_hold_calls_back(
    exchange: ExchangeView,
    answer: AnswerView,
    gate: ForcedRefreshGate,
    now: u128,
    other: ExchangeView,
    refresh: RefreshView,
    moment: u128,
)
    requires
        exchange.stage is Sending,
        answer.status == 429,
        clock_in_range(now),
        other.stage is Refreshing,
        other.address is Ok,
        !(refresh is Failed),
        now <= moment <= now + asked_seconds(answer.retry_after) * NANOS_PER_SECOND,
    ensures
        ({
            let one = stepped(exchange, EventView::Answered(answer), gate, now);
            let two = stepped(other, EventView::Refreshed(refresh), one.gate, moment);
            &&& one.action == ActionView::Finish(
                Err(rate_limited(asked_seconds(answer.retry_after) as nat)),
            )
            &&& two.action matches ActionView::Finish(Err(RequestErrorView::Api(error)))
            &&& error.status == 429
        }),
{
    let window = (asked_seconds(answer.retry_after) * NANOS_PER_SECOND) as u128;
    lemma_window_holds(gate, window, now, moment);
}

/// Every status from 200 to 299 is a success, and all of them are treated alike: a body that holds
/// something and is said to be JSON gives the value that it writes out, whichever of them it came
/// with. Nothing else changes.
pub proof fn lemma_success_gives_body(
    exchange: ExchangeView,
    answer: AnswerView,
    gate: ForcedRefreshGate,
    now: u128,
    body: Seq<char>,
    before: Seq<char>,
    name: Seq<char>,
    after: Seq<char>,
)
    requires
        200 <= answer.status <= 299,
        answer.body == Ok::<Seq<char>, Seq<char>>(body),
        answer.content_type == Some(before + name + after),
        ascii_lowercase(name) == "/json"@ || ascii_lowercase(name) == "+json"@,
        !blank(body),
    ensures
        ({
            let step = stepped(exchange, EventView::Answered(answer), gate, now);
            &&& parsed_json(body) matches Ok(value) ==> step.action == ActionView::Finish(Ok(value))
            &&& parsed_json(body) matches Err(message) ==> step.action == ActionView::Finish(
                Err(RequestErrorView::Other(message)),
            )
            &&& step.gate == gate
        }),
{
    lemma_json_is_read(before, name, after, body);
}

/// A success whose body is blank, or is said to be something else than JSON, gives `null`; one whose
/// body could not be read gives the reason.
pub proof fn lemma_success_without_json(
    exchange: ExchangeView,
    answer: AnswerView,
    gate: ForcedRefreshGate,
    now: u128,
)
    requires
        200 <= answer.status <= 299,
    ensures
        ({
            let step = stepped(exchange, EventView::Answered(answer), gate, now);
            &&& answer.body matches Ok(body) ==> {
                &&& blank(body) ==> step.action == ActionView::Finish(Ok(JsonView::Null))
                &&& answer.content_type is None ==> step.action == ActionView::Finish(
                    Ok(JsonView::Null),
                )
                &&& answer.content_type matches Some(value) ==> !contains_text(
                    ascii_lowercase(value),
                    "json"@,
                ) ==> step.action == ActionView::Finish(Ok(JsonView::Null))
            }
            &&& answer.body matches Err(message) ==> step.action == ActionView::Finish(
                Err(RequestErrorView::Other(message)),
            )
            &&& step.gate == gate
        }),
{
    if let Ok(body) = answer.body {
        lemma_trimmed(body);
        if answer.content_type is None || !contains_text(
            ascii_lowercase(answer.content_type->0),
            "json"@,
        ) {
            lemma_other_content_is_not_read(answer.content_type, body);
        }
    }
}

/// What answer a success is does not depend on its status.
pub proof fn lemma_successes_are_alike(
    exchange: ExchangeView,
    one: AnswerView,
    other: AnswerView,
    gate: ForcedRefreshGate,
    now: u128,
)
    requires
        200 <= one.status <= 299,
        200 <= other.status <= 299,
        one == (AnswerView { status: one.status, ..other }),
    ensures
        stepped(exchange, EventView::Answered(one), gate, now) == stepped(
            exchange,
            EventView::Answered(other),
            gate,
            now,
        ),
{
}

/// A call succeeds by an answer with a status from 200 to 299, and by nothing else.
pub proof fn lemma_only_success_succeeds(
    exchange: ExchangeView,
    event: EventView,
    gate: ForcedRefreshGate,
    now: u128,
)
    requires
        stepped(exchange, event, gate, now).action matches ActionView::Finish(Ok(_)),
    ensures
        event matches EventView::Answered(answer) && 200 <= answer.status <= 299,
{
}

/// An answer that is neither a success nor a refused token nor one of too many requests ends the call
/// with its status and its body, and nothing else changes.
pub proof fn lemma_failure_is_handed_on(
    exchange: ExchangeView,
    answer: AnswerView,
    gate: ForcedRefreshGate,
    now: u128,
)
    requires
        !(200 <= answer.status <= 299),
        answer.status != 429,
        answer.status != 401 || exchange.recovered,
    ensures
        ({
            let step = stepped(exchange, EventView::Answered(answer), gate, now);
            &&& step.action matches ActionView::Finish(Err(RequestErrorView::Api(error)))
            &&& error.status == answer.status
            &&& error.detail is None
            &&& answer.body matches Ok(body) ==> error.body == body
            &&& answer.body is Err ==> error.body.len() == 0
            &&& step.gate == gate
        }),
{
}

/// The first refused token of a call asks for another one, where none was forced within the
/// cooldown; else the request goes out again after a second with the token at hand. Either way the
/// call has met its refusal.
pub proof fn lemma_refused_token_is_met(
    exchange: ExchangeView,
    answer: AnswerView,
    gate: ForcedRefreshGate,
    now: u128,
)
    requires
        answer.status == 401,
        !exchange.recovered,
    ensures
        ({
            let step = stepped(exchange, EventView::Answered(answer), gate, now);
            let free = match gate.last_forced_refresh {
                Some(last) => last + gate.cooldown <= now || gate.cooldown == 0,
                None => true,
            };
            &&& step.exchange.recovered
            &&& step.exchange.attempt == exchange.attempt
            &&& step.exchange.url == exchange.url
            &&& free ==> {
                &&& step.action == (ActionView::Refresh { force: true })
                &&& step.gate.last_forced_refresh == Some(now)
                &&& step.gate.rate_limited_until == gate.rate_limited_until
                &&& step.gate.cooldown == gate.cooldown
            }
            &&& !free ==> step.action == (ActionView::Send { after_seconds: 1 }) && step.gate
                == gate
        }),
{
}

/// With another token the request goes out again after a second. Without one the refusal is the
/// error of the call, with its body and the reason why there is none.
pub proof fn lemma_refused_token_is_replaced(
    exchange: ExchangeView,
    answer: AnswerView,
    gate: ForcedRefreshGate,
    now: u128,
    refresh: RefreshView,
    moment: u128,
)
    requires
        exchange.stage is Sending,
        answer.status == 401,
        !exchange.recovered,
        gate.last_forced_refresh is None,
    ensures
        ({
            let refused = stepped(exchange, EventView::Answered(answer), gate, now);
            let step = stepped(refused.exchange, EventView::Refreshed(refresh), refused.gate, moment);
            &&& step.gate == refused.gate
            &&& refresh is Fresh ==> step.action == (ActionView::Send { after_seconds: 1 })
            &&& refresh is Unavailable ==> {
                &&& step.action matches ActionView::Finish(Err(RequestErrorView::Api(error)))
                &&& error.status == 401
                &&& answer.body matches Ok(body) ==> error.body == body
                &&& error.detail == Some("token refresh unavailable for this request"@)
            }
            &&& refresh matches RefreshView::Failed(reason) ==> {
                &&& step.action matches ActionView::Finish(Err(RequestErrorView::Api(error)))
                &&& error.status == 401
                &&& answer.body matches Ok(body) ==> error.body == body
                &&& error.detail == Some("token refresh failed: "@ + error_text(reason))
            }
        }),
{
}

/// A call whose first look at the token fails ends with that failure; one without a good URL ends
/// with what is wrong with it; any other sends its request at once, to its URL, unless it is held
/// back.
pub proof fn lemma_call_begins(
    exchange: ExchangeView,
    refresh: RefreshView,
    gate: ForcedRefreshGate,
    now: u128,
)
    requires
        exchange.stage is Refreshing,
    ensures
        ({
            let step = stepped(exchange, EventView::Refreshed(refresh), gate, now);
            let closed = gate.rate_limited_until matches Some(until) && now <= until;
            &&& step.gate == gate
            &&& step.exchange.attempt == exchange.attempt
            &&& step.exchange.recovered == exchange.recovered
            &&& refresh matches RefreshView::Failed(error) ==> step.action == ActionView::Finish(
                Err(error),
            )
            &&& !(refresh is Failed) ==> {
                &&& exchange.address matches Err(message) ==> step.action == ActionView::Finish(
                    Err(RequestErrorView::Other(message)),
                )
                &&& exchange.address matches Ok(url) ==> step.exchange.url == Some(url)
                &&& exchange.address is Ok && !closed ==> step.action == (ActionView::Send {
                    after_seconds: 0,
                })
                &&& exchange.address is Ok && closed ==> (step.action matches ActionView::Finish(
                    Err(RequestErrorView::Api(error)),
                ) && error.status == 429)
            }
        }),
{
}

/// A failing network is tried again after one, two and three seconds, and then no more; a failure
/// that is not worth it is not tried again at all. The last reason is the error of the call.
pub proof fn lemma_failing_network(
    exchange: ExchangeView,
    retryable: bool,
    message: Seq<char>,
    gate: ForcedRefreshGate,
    now: u128,
)
    requires
        exchange.attempt < 4,
    ensures
        ({
            let step = stepped(
                exchange,
                EventView::SendFailed { retryable, message },
                gate,
                now,
            );
            &&& step.gate == gate
            &&& retryable && exchange.attempt < 3 ==> {
                &&& step.action == (ActionView::Send {
                    after_seconds: (exchange.attempt + 1) as u64,
                })
                &&& step.exchange.attempt == exchange.attempt + 1
                &&& step.exchange.recovered == exchange.recovered
                &&& step.exchange.url == exchange.url
            }
            &&& !retryable || exchange.attempt == 3 ==> step.action == ActionView::Finish(
                Err(RequestErrorView::Other("Spotify API request failed: "@ + message)),
            )
        }),
{
}

/// A request without a token is not sent.
pub proof fn lemma_no_token_ends_call(
    exchange: ExchangeView,
    gate: ForcedRefreshGate,
    now: u128,
)
    ensures
        stepped(exchange, EventView::NoToken, gate, now).action == ActionView::Finish(
            Err(RequestErrorView::Other("No access token available"@)),
        ),
        stepped(exchange, EventView::NoToken, gate, now).gate == gate,
{
}

/// An answer of too many requests closes the session for the seconds that its header writes out: at
/// least one, at most ten minutes, and never less than it was closed for. The call is told how long
/// it asked to wait.
pub proof fn lemma_too_many_requests_close_the_session(
    exchange: ExchangeView,
    answer: AnswerView,
    gate: ForcedRefreshGate,
    now: u128,
    seconds: nat,
)
    requires
        answer.status == 429,
        answer.retry_after == Some(decimal(seconds)),
        seconds <= u64::MAX,
        clock_in_range(now),
    ensures
        ({
            let step = stepped(exchange, EventView::Answered(answer), gate, now);
            let wait: nat = if seconds == 0 {
                1
            } else if seconds > 600 {
                600
            } else {
                seconds
            };
            let until = now + wait * 1_000_000_000;
            &&& step.action == ActionView::Finish(Err(rate_limited(wait)))
            &&& step.gate.last_forced_refresh == gate.last_forced_refresh
            &&& step.gate.rate_limited_until matches Some(end)
            &&& end as int == (match gate.rate_limited_until {
                Some(earlier) => if earlier > until {
                    earlier as int
                } else {
                    until
                },
                None => until,
            })
        }),
{
    lemma_header_is_obeyed(seconds);
}

/// A call whose token is refused once still gets its value: another token is asked for, the request
/// goes out again, and the value of the answer to it is the outcome, as if the first one had never been
/// sent.
pub proof fn lemma_call_recovers(
    exchange: ExchangeView,
    refused: AnswerView,
    answer: AnswerView,
    gate: ForcedRefreshGate,
    now: u128,
    later: u128,
    last: u128,
)
    requires
        exchange.stage is Sending,
        !exchange.recovered,
        refused.status == 401,
        gate.last_forced_refresh is None,
        200 <= answer.status <= 299,
    ensures
        ({
            let one = stepped(exchange, EventView::Answered(refused), gate, now);
            let two = stepped(
                one.exchange,
                EventView::Refreshed(RefreshView::Fresh),
                one.gate,
                later,
            );
            let three = stepped(two.exchange, EventView::Answered(answer), two.gate, last);
            let direct = stepped(exchange, EventView::Answered(answer), gate, last);
            &&& one.action == (ActionView::Refresh { force: true })
            &&& two.action == (ActionView::Send { after_seconds: 1 })
            &&& three.action is Finish
            &&& three.action == direct.action
            &&& three.exchange.url == exchange.url
        }),
{
}

} // verus!
