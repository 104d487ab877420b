//! One upstream call from its first attempt to its outcome: which attempts are made, what is
//! reported of the accounts, how long to wait between attempts, and which error is returned.
//!
//! The call is a state machine. Whoever runs it performs the actions that it asks for, in their
//! order, and hands back the event that came of the last one.
use crate::backoff::{
    is_drawn_up_to, retry_backoff, retry_jitter, throttle_backoff, throttle_jitter,
};
use crate::provider::KiroProvider;
use crate::request::is_monthly_limit;
use crate::status::{disposition, disposition_of, status_line, Disposition, HttpStatus};
use crate::text::{decimal_digits, decimal_text};
use vstd::prelude::*;

verus! {

/// How many attempts each account adds to the budget of a call.
pub const MAX_RETRIES_PER_CREDENTIAL: usize = 3;

/// How many attempts a call has at most.
pub const MAX_TOTAL_RETRIES: usize = 9;

/// How many attempts a call has: so many for each account, up to a fixed limit.
pub open spec fn retry_budget_of(total_credentials: nat) -> nat {
    if total_credentials * MAX_RETRIES_PER_CREDENTIAL <= MAX_TOTAL_RETRIES {
        total_credentials * MAX_RETRIES_PER_CREDENTIAL as nat
    } else {
        MAX_TOTAL_RETRIES as nat
    }
}

/// How many attempts a call has, with so many accounts.
pub fn retry_budget(total_credentials: usize) -> (attempts: usize)
    ensures
        attempts == retry_budget_of(total_credentials as nat),
{
    if total_credentials <= MAX_TOTAL_RETRIES / MAX_RETRIES_PER_CREDENTIAL {
        total_credentials * MAX_RETRIES_PER_CREDENTIAL
    } else {
        MAX_TOTAL_RETRIES
    }
}

/// Which upstream service a call is for.
#[derive(Clone, Copy, PartialEq, Eq, Structural)]
pub enum CallKind {
    /// The assistant, with a streamed response or a plain one.
    Api { streaming: bool },
    /// A tool.
    Mcp,
}

/// Why a call, or one attempt of it, failed.
pub enum CallError {
    /// No account could be had; the text says why.
    Context(String),
    /// The request headers could not be built; the text says why.
    Headers(String),
    /// No client could be had for the account's proxy; the text says why.
    Client(String),
    /// The request could not be sent; the text says why.
    Transport(String),
    /// The response headers did not arrive within so many seconds.
    FirstByteTimeout(u64),
    /// The upstream refused the request.
    Refused { kind: CallKind, status: HttpStatus, body: String },
    /// The upstream refused the request, and no account is left to try.
    AccountsExhausted { kind: CallKind, status: HttpStatus, body: String },
    /// The call had no attempt to make.
    OutOfRetries { kind: CallKind, max_retries: usize },
}

/// How a message on a failed call begins.
pub open spec fn failure_label(kind: CallKind) -> Seq<char> {
    match kind {
        CallKind::Api { streaming: true } => "流式 API 请求失败"@,
        CallKind::Api { streaming: false } => "非流式 API 请求失败"@,
        CallKind::Mcp => "MCP 请求失败"@,
    }
}

/// How a message on a failed call begins.
fn label(kind: CallKind) -> (text: &'static str)
    ensures
        text@ == failure_label(kind),
{
    match kind {
        CallKind::Api { streaming: true } => "流式 API 请求失败",
        CallKind::Api { streaming: false } => "非流式 API 请求失败",
        CallKind::Mcp => "MCP 请求失败",
    }
}

impl CallError {
    /// The message of the error.
    pub open spec fn text(self) -> Seq<char> {
        match self {
            CallError::Context(why) => why@,
            CallError::Headers(why) => why@,
            CallError::Client(why) => why@,
            CallError::Transport(why) => why@,
            CallError::FirstByteTimeout(secs) => "上游首字节超时："@ + decimal_digits(
                secs as nat,
            ) + "s 内未返回响应头"@,
            CallError::Refused { kind, status, body } => failure_label(kind) + ": "@ + status_line(
                status.number(),
            ) + " "@ + body@,
            CallError::AccountsExhausted { kind, status, body } => failure_label(kind)
                + "（所有账号已用尽）: "@ + status_line(status.number()) + " "@ + body@,
            CallError::OutOfRetries { kind, max_retries } => failure_label(kind)
                + "：已达到最大重试次数（"@ + decimal_digits(max_retries as nat) + "次）"@,
        }
    }

    /// The message of the error.
    pub fn message(&self) -> (message: String)
        ensures
            message@ == self.text(),
    {
        match self {
            CallError::Context(why) => why.clone(),
            CallError::Headers(why) => why.clone(),
            CallError::Client(why) => why.clone(),
            CallError::Transport(why) => why.clone(),
            CallError::FirstByteTimeout(secs) => {
                let mut message = "上游首字节超时：".to_owned();
                message.append(decimal_text(*secs).as_str());
                message.append("s 内未返回响应头");
                message
            },
            CallError::Refused { kind, status, body } => {
                let mut message = label(*kind).to_owned();
                message.append(": ");
                message.append(status.line().as_str());
                message.append(" ");
                message.append(body.as_str());
                message
            },
            CallError::AccountsExhausted { kind, status, body } => {
                let mut message = label(*kind).to_owned();
                message.append("（所有账号已用尽）: ");
                message.append(status.line().as_str());
                message.append(" ");
                message.append(body.as_str());
                message
            },
            CallError::OutOfRetries { kind, max_retries } => {
                let mut message = label(*kind).to_owned();
                message.append("：已达到最大重试次数（");
                message.append(decimal_text(*max_retries as u64).as_str());
                message.append("次）");
                message
            },
        }
    }
}

/// What came of the last action.
pub enum Event {
    /// No account could be had.
    ContextFailed(String),
    /// The request headers could not be built.
    HeadersFailed(String),
    /// No client could be had.
    ClientFailed(String),
    /// The request could not be sent.
    SendFailed(String),
    /// The response headers did not arrive within so many seconds.
    FirstByteTimedOut(u64),
    /// The response headers have arrived, for the request of an account.
    Responded { credential: u64, status: HttpStatus },
    /// The body of the response has been read.
    BodyRead(String),
    /// The failure or the used up quota of the account has been reported.
    Reported { has_available: bool },
}

/// A wait between two attempts, by the index of the attempt before it.
#[derive(Clone, Copy, PartialEq, Eq, Structural)]
pub enum Pause {
    /// After a passing failure.
    Retry { attempt: usize },
    /// After throttling.
    Throttle { attempt: usize },
}

impl Pause {
    /// How many milliseconds the wait takes.
    pub fn delay(self) -> (ms: u64)
        ensures
            match self {
                Pause::Retry { attempt } => retry_backoff(attempt as nat) <= ms <= retry_backoff(
                    attempt as nat,
                ) + retry_jitter(attempt as nat),
                Pause::Throttle { attempt } => throttle_backoff(attempt as nat) <= ms
                    <= throttle_backoff(attempt as nat) + throttle_jitter(attempt as nat),
            },
            match self {
                Pause::Retry { attempt } => exists|jitter: u64| #[trigger]
                    is_drawn_up_to(retry_jitter(attempt as nat) as u64, jitter) && ms
                        == retry_backoff(attempt as nat) + jitter,
                Pause::Throttle { attempt } => exists|jitter: u64| #[trigger]
                    is_drawn_up_to(throttle_jitter(attempt as nat) as u64, jitter) && ms
                        == throttle_backoff(attempt as nat) + jitter,
            },
    {
        match self {
            Pause::Retry { attempt } => KiroProvider::retry_delay(attempt),
            Pause::Throttle { attempt } => KiroProvider::throttle_delay(attempt),
        }
    }
}

/// What a call asks for.
pub enum Action {
    /// Select an account, build the request for it and send it.
    Attempt,
    /// Read the body of the response.
    ReadBody,
    /// Report that the account served a request.
    ReportSuccess { credential: u64 },
    /// Report that the account is being throttled.
    ReportThrottled { credential: u64 },
    /// Report that the account failed.
    ReportFailure { credential: u64 },
    /// Report that the quota of the account is used up.
    ReportQuotaExhausted { credential: u64 },
    /// Count the request for the account.
    RecordRpm { credential: u64 },
    /// Wait.
    Wait(Pause),
    /// Return the response, which is the account's, and with it the slot of the call: it is given
    /// back when the response has been read.
    Deliver { credential: u64 },
    /// Give back the slot of the call and return the error.
    Fail(CallError),
}

/// Where a call stands.
pub enum Stage {
    /// An attempt is under way.
    Attempting,
    /// The body of an account's refused request is being read.
    Reading { credential: u64, status: HttpStatus },
    /// An account is being reported for a refused request.
    Reporting { status: HttpStatus, body: String },
    /// The outcome is known.
    Finished,
}

/// One upstream call. It begins when it has been given a slot for a request in flight.
pub struct UpstreamCall {
    /// Which service it is for.
    pub kind: CallKind,
    /// How many attempts it has.
    pub max_retries: usize,
    /// The index of the current attempt.
    pub attempt: usize,
    /// Whether the requests served are counted for their accounts.
    pub tracks_rpm: bool,
    /// Where it stands.
    pub stage: Stage,
}

impl UpstreamCall {
    /// A call before its first attempt.
    pub open spec fn begun(kind: CallKind, max_retries: usize, tracks_rpm: bool) -> (
        UpstreamCall,
        Seq<Action>,
    ) {
        if max_retries > 0 {
            (
                UpstreamCall { kind, max_retries, attempt: 0, tracks_rpm, stage: Stage::Attempting },
                seq![Action::Attempt],
            )
        } else {
            (
                UpstreamCall { kind, max_retries, attempt: 0, tracks_rpm, stage: Stage::Finished },
                seq![Action::Fail(CallError::OutOfRetries { kind, max_retries })],
            )
        }
    }

    /// The call with its outcome known.
    pub open spec fn finished(self) -> UpstreamCall {
        UpstreamCall { stage: Stage::Finished, ..self }
    }

    /// Whether there is an attempt after the current one.
    pub open spec fn may_retry(self) -> bool {
        self.attempt + 1 < self.max_retries
    }

    /// After an attempt failed with `error`: the next attempt follows, after the pause if there is
    /// one. With no attempt left the error is the outcome, and nothing is waited for.
    pub open spec fn after_failure(self, error: CallError, pause: Option<Pause>) -> (
        UpstreamCall,
        Seq<Action>,
    ) {
        if self.may_retry() {
            (
                UpstreamCall {
                    attempt: (self.attempt + 1) as usize,
                    stage: Stage::Attempting,
                    ..self
                },
                match pause {
                    Some(p) => seq![Action::Wait(p), Action::Attempt],
                    None => seq![Action::Attempt],
                },
            )
        } else {
            (self.finished(), seq![Action::Fail(error)])
        }
    }

    /// The pause after a passing failure of the current attempt.
    pub open spec fn retry_pause(self) -> Option<Pause> {
        Some(Pause::Retry { attempt: self.attempt })
    }

    /// The pause after the current attempt was throttled. Calls of tools do not wait longer for
    /// it than for other passing failures.
    pub open spec fn throttle_pause(self) -> Option<Pause> {
        match self.kind {
            CallKind::Api { .. } => Some(Pause::Throttle { attempt: self.attempt }),
            CallKind::Mcp => self.retry_pause(),
        }
    }

    /// After a response with a status code of success, of the account `credential`.
    pub open spec fn after_success(self, credential: u64) -> (UpstreamCall, Seq<Action>) {
        (
            self.finished(),
            if self.tracks_rpm {
                seq![
                    Action::ReportSuccess { credential },
                    Action::RecordRpm { credential },
                    Action::Deliver { credential },
                ]
            } else {
                seq![Action::ReportSuccess { credential }, Action::Deliver { credential }]
            },
        )
    }

    /// After the body of a refused request was read, given what becomes of the response.
    pub open spec fn after_refusal(
        self,
        credential: u64,
        status: HttpStatus,
        body: String,
        disposition: Disposition,
    ) -> (UpstreamCall, Seq<Action>) {
        let error = CallError::Refused { kind: self.kind, status, body };
        let reporting = UpstreamCall { stage: Stage::Reporting { status, body }, ..self };
        match disposition {
            Disposition::ExhaustQuota => (
                reporting,
                seq![Action::ReportQuotaExhausted { credential }],
            ),
            Disposition::BlameAccount => (reporting, seq![Action::ReportFailure { credential }]),
            Disposition::Throttle => {
                let (next, actions) = self.after_failure(error, self.throttle_pause());
                (
                    next,
                    seq![
                        Action::ReportThrottled { credential },
                        Action::ReportSuccess { credential },
                    ] + actions,
                )
            },
            Disposition::Transient => self.after_failure(error, self.retry_pause()),
            Disposition::Deliver => (self.finished(), seq![Action::Fail(error)]),
            Disposition::Reject => (self.finished(), seq![Action::Fail(error)]),
        }
    }

    /// After an event, the call and the actions that it asks for. An event that the call does not
    /// wait for changes nothing.
    pub open spec fn after_event(self, event: Event) -> (UpstreamCall, Seq<Action>) {
        match (self.stage, event) {
            (Stage::Attempting, Event::ContextFailed(why)) => self.after_failure(
                CallError::Context(why),
                None,
            ),
            (Stage::Attempting, Event::HeadersFailed(why)) => self.after_failure(
                CallError::Headers(why),
                None,
            ),
            (Stage::Attempting, Event::ClientFailed(why)) => (
                self.finished(),
                seq![Action::Fail(CallError::Client(why))],
            ),
            (Stage::Attempting, Event::SendFailed(why)) => self.after_failure(
                CallError::Transport(why),
                self.retry_pause(),
            ),
            (Stage::Attempting, Event::FirstByteTimedOut(secs)) => self.after_failure(
                CallError::FirstByteTimeout(secs),
                self.retry_pause(),
            ),
            (Stage::Attempting, Event::Responded { credential, status }) => if 200
                <= status.number() < 300 {
                self.after_success(credential)
            } else {
                (
                    UpstreamCall { stage: Stage::Reading { credential, status }, ..self },
                    seq![Action::ReadBody],
                )
            },
            (Stage::Reading { credential, status }, Event::BodyRead(body)) => self.after_refusal(
                credential,
                status,
                body,
                disposition_of(status.number(), is_monthly_limit(body@)),
            ),
            (Stage::Reporting { status, body }, Event::Reported { has_available }) => if has_available {
                self.after_failure(CallError::Refused { kind: self.kind, status, body }, None)
            } else {
                (
                    self.finished(),
                    seq![
                        Action::Fail(
                            CallError::AccountsExhausted { kind: self.kind, status, body },
                        ),
                    ],
                )
            },
            _ => (self, Seq::empty()),
        }
    }

    /// Begins a call.
    pub fn begin(kind: CallKind, max_retries: usize, tracks_rpm: bool) -> (begun: (
        UpstreamCall,
        Vec<Action>,
    ))
        ensures
            (begun.0, begun.1@) == Self::begun(kind, max_retries, tracks_rpm),
    {
        let mut actions: Vec<Action> = Vec::new();
        if max_retries > 0 {
            actions.push(Action::Attempt);
            (
                UpstreamCall { kind, max_retries, attempt: 0, tracks_rpm, stage: Stage::Attempting },
                actions,
            )
        } else {
            actions.push(Action::Fail(CallError::OutOfRetries { kind, max_retries }));
            (
                UpstreamCall { kind, max_retries, attempt: 0, tracks_rpm, stage: Stage::Finished },
                actions,
            )
        }
    }

    /// Goes on to the next attempt, or to the end if there is none.
    fn fail_attempt(self, error: CallError, pause: Option<Pause>) -> (next: (
        UpstreamCall,
        Vec<Action>,
    ))
        ensures
            (next.0, next.1@) == self.after_failure(error, pause),
    {
        let mut actions: Vec<Action> = Vec::new();
        if self.attempt < self.max_retries && self.max_retries - self.attempt > 1 {
            if let Some(p) = pause {
                actions.push(Action::Wait(p));
            }
            actions.push(Action::Attempt);
            (
                UpstreamCall { attempt: self.attempt + 1, stage: Stage::Attempting, ..self },
                actions,
            )
        } else {
            actions.push(Action::Fail(error));
            (UpstreamCall { stage: Stage::Finished, ..self }, actions)
        }
    }

    /// Goes on after the body of a refused request was read, given what becomes of the response.
    pub fn refuse(
        self,
        credential: u64,
        status: HttpStatus,
        body: String,
        disposition: Disposition,
    ) -> (next: (UpstreamCall, Vec<Action>))
        ensures
            (next.0, next.1@) == self.after_refusal(credential, status, body, disposition),
    {
        let kind = self.kind;
        let attempt: usize = self.attempt;
        let mut actions: Vec<Action> = Vec::new();
        match disposition {
            Disposition::ExhaustQuota => {
                actions.push(Action::ReportQuotaExhausted { credential });
                (UpstreamCall { stage: Stage::Reporting { status, body }, ..self }, actions)
            },
            Disposition::BlameAccount => {
                actions.push(Action::ReportFailure { credential });
                (UpstreamCall { stage: Stage::Reporting { status, body }, ..self }, actions)
            },
            Disposition::Throttle => {
                let pause = match kind {
                    CallKind::Api { .. } => Pause::Throttle { attempt },
                    CallKind::Mcp => Pause::Retry { attempt },
                };
                let (next, rest) = self.fail_attempt(
                    CallError::Refused { kind, status, body },
                    Some(pause),
                );
                let mut rest = rest;
                actions.push(Action::ReportThrottled { credential });
                actions.push(Action::ReportSuccess { credential });
                actions.append(&mut rest);
                (next, actions)
            },
            Disposition::Transient => self.fail_attempt(
                CallError::Refused { kind, status, body },
                Some(Pause::Retry { attempt }),
            ),
            Disposition::Deliver | Disposition::Reject => {
                actions.push(Action::Fail(CallError::Refused { kind, status, body }));
                (UpstreamCall { stage: Stage::Finished, ..self }, actions)
            },
        }
    }

    /// Whether an attempt is under way.
    fn is_attempting(&self) -> (attempting: bool)
        ensures
            attempting == (self.stage is Attempting),
    {
        match self.stage {
            Stage::Attempting => true,
            _ => false,
        }
    }

    /// Ends the call.
    fn finish(self, outcome: Action) -> (next: (UpstreamCall, Vec<Action>))
        ensures
            (next.0, next.1@) == (self.finished(), seq![outcome]),
    {
        let mut actions: Vec<Action> = Vec::new();
        actions.push(outcome);
        (UpstreamCall { stage: Stage::Finished, ..self }, actions)
    }

    /// Goes on after the response headers have arrived.
    fn respond(self, credential: u64, status: HttpStatus) -> (next: (UpstreamCall, Vec<Action>))
        requires
            self.stage is Attempting,
        ensures
            (next.0, next.1@) == self.after_event(Event::Responded { credential, status }),
    {
        let code: u16 = status.as_u16();
        let mut actions: Vec<Action> = Vec::new();
        if 200 <= code && code < 300 {
            actions.push(Action::ReportSuccess { credential });
            if self.tracks_rpm {
                actions.push(Action::RecordRpm { credential });
            }
            actions.push(Action::Deliver { credential });
            (UpstreamCall { stage: Stage::Finished, ..self }, actions)
        } else {
            actions.push(Action::ReadBody);
            (UpstreamCall { stage: Stage::Reading { credential, status }, ..self }, actions)
        }
    }

    /// Goes on after the body of a response was read.
    fn read_body(self, body: String) -> (next: (UpstreamCall, Vec<Action>))
        ensures
            (next.0, next.1@) == self.after_event(Event::BodyRead(body)),
    {
        match self.stage {
            Stage::Reading { credential, status } => {
                let monthly_limit = KiroProvider::is_monthly_request_limit(body.as_str());
                let found = disposition(status.as_u16(), monthly_limit);
                self.refuse(credential, status, body, found)
            },
            _ => (self, Vec::new()),
        }
    }

    /// Goes on after an account was reported.
    fn reported(self, has_available: bool) -> (next: (UpstreamCall, Vec<Action>))
        ensures
            (next.0, next.1@) == self.after_event(Event::Reported { has_available }),
    {
        let UpstreamCall { kind, max_retries, attempt, tracks_rpm, stage } = self;
        match stage {
            Stage::Reporting { status, body } => {
                let call = UpstreamCall {
                    kind,
                    max_retries,
                    attempt,
                    tracks_rpm,
                    stage: Stage::Finished,
                };
                if has_available {
                    call.fail_attempt(CallError::Refused { kind, status, body }, None)
                } else {
                    call.finish(
                        Action::Fail(CallError::AccountsExhausted { kind, status, body }),
                    )
                }
            },
            other => (
                UpstreamCall { kind, max_retries, attempt, tracks_rpm, stage: other },
                Vec::new(),
            ),
        }
    }

    /// Goes on after an event. An event that the call does not wait for changes nothing.
    pub fn step(self, event: Event) -> (next: (UpstreamCall, Vec<Action>))
        ensures
            (next.0, next.1@) == self.after_event(event),
    {
        let attempt: usize = self.attempt;
        match event {
            Event::ContextFailed(why) if self.is_attempting() => self.fail_attempt(
                CallError::Context(why),
                None,
            ),
            Event::HeadersFailed(why) if self.is_attempting() => self.fail_attempt(
                CallError::Headers(why),
                None,
            ),
            Event::ClientFailed(why) if self.is_attempting() => self.finish(
                Action::Fail(CallError::Client(why)),
            ),
            Event::SendFailed(why) if self.is_attempting() => self.fail_attempt(
                CallError::Transport(why),
                Some(Pause::Retry { attempt }),
            ),
            Event::FirstByteTimedOut(secs) if self.is_attempting() => self.fail_attempt(
                CallError::FirstByteTimeout(secs),
                Some(Pause::Retry { attempt }),
            ),
            Event::Responded { credential, status } if self.is_attempting() => self.respond(
                credential,
                status,
            ),
            Event::BodyRead(body) => self.read_body(body),
            Event::Reported { has_available } => self.reported(has_available),
            _ => (self, Vec::new()),
        }
    }
}

/// The call after a sequence of events, and all the actions that it asked for on the way.
pub open spec fn run(call: UpstreamCall, events: Seq<Event>) -> (UpstreamCall, Seq<Action>)
    decreases events.len(),
{
    if events.len() == 0 {
        (call, Seq::empty())
    } else {
        let (before, actions) = run(call, events.drop_last());
        let (after, more) = before.after_event(events.last());
        (after, actions + more)
    }
}

/// All the actions that a call asks for: to begin with, and on a sequence of events.
pub open spec fn transcript(
    kind: CallKind,
    max_retries: usize,
    tracks_rpm: bool,
    events: Seq<Event>,
) -> Seq<Action> {
    let (call, opening) = UpstreamCall::begun(kind, max_retries, tracks_rpm);
    opening + run(call, events).1
}

/// How many of the actions are attempts.
pub open spec fn attempts_in(actions: Seq<Action>) -> nat {
    actions.filter(|action: Action| action is Attempt).len()
}

/// How many of the actions are outcomes.
pub open spec fn outcomes_in(actions: Seq<Action>) -> nat {
    actions.filter(|action: Action| action is Deliver || action is Fail).len()
}

/// Whether an action reports on an account.
pub open spec fn is_report(action: Action) -> bool {
    ||| action is ReportSuccess
    ||| action is ReportThrottled
    ||| action is ReportFailure
    ||| action is ReportQuotaExhausted
    ||| action is RecordRpm
}

/// What one step adds to the attempts and outcomes.
proof fn lemma_step_counts(call: UpstreamCall, event: Event)
    ensures
        ({
            let (next, actions) = call.after_event(event);
            &&& next.max_retries == call.max_retries
            &&& attempts_in(actions) == next.attempt - call.attempt
            &&& call.attempt < call.max_retries ==> next.attempt < next.max_retries
            &&& call.stage is Finished ==> next == call && actions.len() == 0
            &&& outcomes_in(actions) == if next.stage is Finished && !(call.stage is Finished) {
                1nat
            } else {
                0nat
            }
        }),
{
    reveal_with_fuel(Seq::filter, 5);
}

/// How many attempts and outcomes a call begins with.
proof fn lemma_opening_counts(kind: CallKind, max_retries: usize, tracks_rpm: bool)
    ensures
        ({
            let (call, opening) = UpstreamCall::begun(kind, max_retries, tracks_rpm);
            &&& attempts_in(opening) == if max_retries > 0 {
                1nat
            } else {
                0nat
            }
            &&& outcomes_in(opening) == if call.stage is Finished {
                1nat
            } else {
                0nat
            }
        }),
{
    reveal_with_fuel(Seq::filter, 2);
}

/// What a run adds to the attempts and outcomes.
proof fn lemma_run_counts(call: UpstreamCall, events: Seq<Event>)
    ensures
        ({
            let (next, actions) = run(call, events);
            &&& next.max_retries == call.max_retries
            &&& attempts_in(actions) == next.attempt - call.attempt
            &&& call.attempt < call.max_retries ==> next.attempt < next.max_retries
            &&& call.stage is Finished ==> next == call && actions.len() == 0
            &&& outcomes_in(actions) == if next.stage is Finished && !(call.stage is Finished) {
                1nat
            } else {
                0nat
            }
        }),
    decreases events.len(),
{
    if events.len() == 0 {
        reveal(Seq::filter);
    } else {
        let (before, actions) = run(call, events.drop_last());
        let (after, more) = before.after_event(events.last());
        lemma_run_counts(call, events.drop_last());
        lemma_step_counts(before, events.last());
        Seq::filter_distributes_over_add(actions, more, |action: Action| action is Attempt);
        Seq::filter_distributes_over_add(
            actions,
            more,
            |action: Action| action is Deliver || action is Fail,
        );
    }
}

/// Whatever happens, a call makes no more attempts than its budget has, which is three for each
/// account and never more than nine.
pub proof fn law_attempts_are_bounded(
    kind: CallKind,
    total_credentials: nat,
    tracks_rpm: bool,
    events: Seq<Event>,
)
    ensures
        attempts_in(
            transcript(kind, retry_budget_of(total_credentials) as usize, tracks_rpm, events),
        ) <= retry_budget_of(total_credentials),
        retry_budget_of(total_credentials) <= 3 * total_credentials,
        retry_budget_of(total_credentials) <= 9,
{
    let max_retries = retry_budget_of(total_credentials) as usize;
    let (call, opening) = UpstreamCall::begun(kind, max_retries, tracks_rpm);
    let actions = run(call, events).1;
    lemma_opening_counts(kind, max_retries, tracks_rpm);
    lemma_run_counts(call, events);
    Seq::filter_distributes_over_add(opening, actions, |action: Action| action is Attempt);
}

/// Whether an event is one that a call waits for.
pub open spec fn is_awaited(call: UpstreamCall, event: Event) -> bool {
    match call.stage {
        Stage::Attempting => !(event is BodyRead || event is Reported),
        Stage::Reading { .. } => event is BodyRead,
        Stage::Reporting { .. } => event is Reported,
        Stage::Finished => false,
    }
}

/// Whether each event is one that the call waits for when it happens.
pub open spec fn are_awaited(call: UpstreamCall, events: Seq<Event>) -> bool
    decreases events.len(),
{
    events.len() > 0 ==> are_awaited(call, events.drop_last()) && is_awaited(
        run(call, events.drop_last()).0,
        events.last(),
    )
}

/// How many events a call can still wait for.
spec fn events_left(call: UpstreamCall) -> int {
    match call.stage {
        Stage::Attempting => 3 * (call.max_retries - call.attempt),
        Stage::Reading { .. } => 3 * (call.max_retries - call.attempt) - 1,
        Stage::Reporting { .. } => 3 * (call.max_retries - call.attempt) - 2,
        Stage::Finished => 0,
    }
}

/// Each event that a call waits for leaves it fewer to wait for.
proof fn lemma_events_left(call: UpstreamCall, events: Seq<Event>)
    requires
        call.attempt < call.max_retries,
        are_awaited(call, events),
    ensures
        events_left(run(call, events).0) + events.len() <= events_left(call),
        events_left(run(call, events).0) >= 0,
    decreases events.len(),
{
    if events.len() > 0 {
        lemma_events_left(call, events.drop_last());
        lemma_run_counts(call, events.drop_last());
        lemma_step_counts(run(call, events.drop_last()).0, events.last());
    }
}

/// Every call comes to an end: it waits for at most three events for each attempt of its budget,
/// and after that it has its outcome.
pub proof fn law_calls_end(
    kind: CallKind,
    max_retries: usize,
    tracks_rpm: bool,
    events: Seq<Event>,
)
    requires
        are_awaited(UpstreamCall::begun(kind, max_retries, tracks_rpm).0, events),
    ensures
        events.len() <= 3 * max_retries,
        events.len() == 3 * max_retries ==> run(
            UpstreamCall::begun(kind, max_retries, tracks_rpm).0,
            events,
        ).0.stage is Finished,
{
    let call = UpstreamCall::begun(kind, max_retries, tracks_rpm).0;
    if max_retries > 0 {
        lemma_events_left(call, events);
        lemma_run_counts(call, events);
    } else if events.len() > 0 {
        lemma_run_counts(call, events.drop_last());
    }
}

/// A call never stalls: the last thing that it asked for is what it waits for, or its outcome.
pub proof fn law_calls_wait_for_what_they_asked_for(
    kind: CallKind,
    max_retries: usize,
    tracks_rpm: bool,
    events: Seq<Event>,
)
    ensures
        ({
            let actions = transcript(kind, max_retries, tracks_rpm, events);
            let last = actions[actions.len() - 1];
            &&& actions.len() > 0
            &&& match run(UpstreamCall::begun(kind, max_retries, tracks_rpm).0, events).0.stage {
                Stage::Attempting => last is Attempt,
                Stage::Reading { .. } => last is ReadBody,
                Stage::Reporting { .. } => last is ReportFailure || last is ReportQuotaExhausted,
                Stage::Finished => last is Deliver || last is Fail,
            }
        }),
    decreases events.len(),
{
    let (call, opening) = UpstreamCall::begun(kind, max_retries, tracks_rpm);
    if events.len() > 0 {
        law_calls_wait_for_what_they_asked_for(kind, max_retries, tracks_rpm, events.drop_last());
        let (before, actions) = run(call, events.drop_last());
        let more = before.after_event(events.last()).1;
        assert(opening + (actions + more) =~= (opening + actions) + more);
    } else {
        assert(opening + run(call, events).1 =~= opening);
    }
}

/// A call has one outcome at most: a response or an error. It has one exactly when it is finished,
/// and after that it asks for nothing more.
pub proof fn law_one_outcome(
    kind: CallKind,
    max_retries: usize,
    tracks_rpm: bool,
    events: Seq<Event>,
    later: Event,
)
    ensures
        ({
            let call = run(UpstreamCall::begun(kind, max_retries, tracks_rpm).0, events).0;
            &&& outcomes_in(transcript(kind, max_retries, tracks_rpm, events))
                == if call.stage is Finished {
                1nat
            } else {
                0nat
            }
            &&& call.stage is Finished ==> call.after_event(later) == (call, Seq::<Action>::empty())
        }),
{
    let (call, opening) = UpstreamCall::begun(kind, max_retries, tracks_rpm);
    let actions = run(call, events).1;
    lemma_opening_counts(kind, max_retries, tracks_rpm);
    lemma_run_counts(call, events);
    lemma_step_counts(run(call, events).0, later);
    Seq::filter_distributes_over_add(
        opening,
        actions,
        |action: Action| action is Deliver || action is Fail,
    );
}

/// A call holds its slot through every attempt, wait and report, and parts with it once: nothing
/// comes after the action that gives the slot back or hands it over with the response.
pub proof fn law_slots_are_held_to_the_end(
    kind: CallKind,
    max_retries: usize,
    tracks_rpm: bool,
    events: Seq<Event>,
)
    ensures
        ({
            let actions = transcript(kind, max_retries, tracks_rpm, events);
            forall|i: int|
                0 <= i < actions.len() && (#[trigger] actions[i] is Deliver || actions[i] is Fail)
                    ==> i == actions.len() - 1
        }),
    decreases events.len(),
{
    let (call, opening) = UpstreamCall::begun(kind, max_retries, tracks_rpm);
    if events.len() == 0 {
        assert(opening + run(call, events).1 =~= opening);
    } else {
        let (before, actions) = run(call, events.drop_last());
        let (after, more) = before.after_event(events.last());
        let earlier = opening + actions;
        let all = earlier + more;
        assert(opening + (actions + more) =~= all);
        law_slots_are_held_to_the_end(kind, max_retries, tracks_rpm, events.drop_last());
        law_calls_wait_for_what_they_asked_for(kind, max_retries, tracks_rpm, events.drop_last());
        lemma_step_counts(before, events.last());
        assert forall|i: int|
            0 <= i < all.len() && (#[trigger] all[i] is Deliver || all[i] is Fail) implies i
            == all.len() - 1 by {
            if i < earlier.len() {
                assert(all[i] == earlier[i]);
            } else {
                assert(all[i] == more[i - earlier.len()]);
            }
        }
    }
}

/// A call with an attempt to make begins with the first, and one with none fails for want of it.
pub proof fn law_calls_begin_with_the_first_attempt(
    kind: CallKind,
    max_retries: usize,
    tracks_rpm: bool,
)
    ensures
        ({
            let (call, actions) = UpstreamCall::begun(kind, max_retries, tracks_rpm);
            &&& call.kind == kind
            &&& call.max_retries == max_retries
            &&& call.tracks_rpm == tracks_rpm
            &&& call.attempt == 0
            &&& actions.len() == 1
            &&& max_retries >= 1 ==> call.stage is Attempting && actions[0] is Attempt
            &&& max_retries == 0 ==> call.stage is Finished && actions[0] == Action::Fail(
                CallError::OutOfRetries { kind, max_retries },
            )
        }),
{
}

/// The budget is as large as both of its bounds allow: three attempts for each account, and nine.
pub proof fn law_budgets_are_used(total_credentials: nat)
    ensures
        retry_budget_of(total_credentials) == 3 * total_credentials || retry_budget_of(
            total_credentials,
        ) == 9,
        retry_budget_of(total_credentials) <= 3 * total_credentials,
        retry_budget_of(total_credentials) <= 9,
{
}

/// Every success is delivered, whichever attempt it comes from: the account is reported to have
/// served a request, the request is counted for it where that is asked for, and the response is
/// returned.
pub proof fn law_successes_are_delivered(call: UpstreamCall, credential: u64, status: HttpStatus)
    requires
        call.stage is Attempting,
        200 <= status.number() < 300,
    ensures
        ({
            let (next, actions) = call.after_event(Event::Responded { credential, status });
            &&& next == UpstreamCall { stage: Stage::Finished, ..call }
            &&& actions.len() == if call.tracks_rpm {
                3nat
            } else {
                2nat
            }
            &&& actions[0] == (Action::ReportSuccess { credential })
            &&& call.tracks_rpm ==> actions[1] == (Action::RecordRpm { credential })
            &&& actions[actions.len() - 1] == (Action::Deliver { credential })
        }),
{
}

/// Whatever came before, the first response with a status code of success ends a call well: it is
/// delivered for its account.
pub proof fn law_a_retry_can_succeed(
    kind: CallKind,
    max_retries: usize,
    tracks_rpm: bool,
    before: Seq<Event>,
    credential: u64,
    status: HttpStatus,
)
    requires
        200 <= status.number() < 300,
        run(UpstreamCall::begun(kind, max_retries, tracks_rpm).0, before).0.stage is Attempting,
    ensures
        ({
            let actions = transcript(
                kind,
                max_retries,
                tracks_rpm,
                before.push(Event::Responded { credential, status }),
            );
            actions.len() > 0 && actions[actions.len() - 1] == (Action::Deliver { credential })
        }),
{
    let (call, opening) = UpstreamCall::begun(kind, max_retries, tracks_rpm);
    let events = before.push(Event::Responded { credential, status });
    assert(events.drop_last() =~= before);
    let (attempting, actions) = run(call, before);
    let more = attempting.after_event(events.last()).1;
    law_successes_are_delivered(attempting, credential, status);
    assert(opening + (actions + more) =~= (opening + actions) + more);
}

/// A response with any other status code is read before anything is decided: its account and its
/// status code are kept in mind, and nothing is reported yet.
pub proof fn law_other_responses_are_read(call: UpstreamCall, credential: u64, status: HttpStatus)
    requires
        call.stage is Attempting,
        status.number() < 200 || status.number() >= 300,
    ensures
        ({
            let (next, actions) = call.after_event(Event::Responded { credential, status });
            &&& next == UpstreamCall { stage: Stage::Reading { credential, status }, ..call }
            &&& actions.len() == 1
            &&& actions[0] is ReadBody
        }),
{
}

/// Each wait goes by the attempt before it: it has the index of the attempt that failed. It is the
/// longer wait after throttling exactly where the assistant answered with 429.
pub proof fn law_waits_go_by_the_attempt(call: UpstreamCall, event: Event, i: int)
    requires
        0 <= i < call.after_event(event).1.len(),
        call.after_event(event).1[i] is Wait,
    ensures
        ({
            let throttled = event is BodyRead && call.kind is Api && (
            call.stage matches Stage::Reading { credential, status } && status.number() == 429);
            match call.after_event(event).1[i] {
                Action::Wait(Pause::Throttle { attempt }) => throttled && attempt == call.attempt,
                Action::Wait(Pause::Retry { attempt }) => !throttled && attempt == call.attempt,
                _ => false,
            }
        }),
{
}

/// The index of the attempt that a wait goes by.
pub open spec fn waited_after(action: Action) -> int {
    match action {
        Action::Wait(Pause::Retry { attempt }) => attempt as int,
        Action::Wait(Pause::Throttle { attempt }) => attempt as int,
        _ => -1,
    }
}

/// What one step asks for before it asks for a wait has no attempt in it.
proof fn lemma_no_attempt_before_a_wait(call: UpstreamCall, event: Event, i: int)
    requires
        0 <= i < call.after_event(event).1.len(),
        call.after_event(event).1[i] is Wait,
    ensures
        attempts_in(call.after_event(event).1.take(i)) == 0,
        waited_after(call.after_event(event).1[i]) == call.attempt,
        !(call.stage is Finished),
{
    let actions = call.after_event(event).1;
    assert(i == 0 || i == 2);
    assert forall|j: int| 0 <= j < i implies !(#[trigger] actions.take(i)[j] is Attempt) by {}
    reveal_with_fuel(Seq::filter, 4);
    if i == 2 {
        assert(actions.take(2).drop_last() =~= actions.take(1));
        assert(actions.take(1).drop_last() =~= actions.take(0));
    }
}

/// The waits grow with the attempts: over a whole call, a wait with so many attempts before it goes
/// by the last of them. So the first wait of a call goes by the first attempt, and each later wait
/// by a later attempt.
pub proof fn law_waits_grow_with_the_attempts(
    kind: CallKind,
    max_retries: usize,
    tracks_rpm: bool,
    events: Seq<Event>,
    i: int,
)
    requires
        0 <= i < transcript(kind, max_retries, tracks_rpm, events).len(),
        transcript(kind, max_retries, tracks_rpm, events)[i] is Wait,
    ensures
        waited_after(transcript(kind, max_retries, tracks_rpm, events)[i]) == attempts_in(
            transcript(kind, max_retries, tracks_rpm, events).take(i),
        ) - 1,
    decreases events.len(),
{
    let (call, opening) = UpstreamCall::begun(kind, max_retries, tracks_rpm);
    if events.len() == 0 {
        assert(opening + run(call, events).1 =~= opening);
    } else {
        let (before, actions) = run(call, events.drop_last());
        let more = before.after_event(events.last()).1;
        let earlier = opening + actions;
        let all = earlier + more;
        assert(opening + (actions + more) =~= all);
        if i < earlier.len() {
            assert(all.take(i) =~= earlier.take(i));
            law_waits_grow_with_the_attempts(kind, max_retries, tracks_rpm, events.drop_last(), i);
        } else {
            let k = i - earlier.len();
            assert(all[i] == more[k]);
            assert(all.take(i) =~= opening + (actions + more.take(k)));
            lemma_no_attempt_before_a_wait(before, events.last(), k);
            lemma_opening_counts(kind, max_retries, tracks_rpm);
            lemma_run_counts(call, events.drop_last());
            Seq::filter_distributes_over_add(
                opening,
                actions + more.take(k),
                |action: Action| action is Attempt,
            );
            Seq::filter_distributes_over_add(
                actions,
                more.take(k),
                |action: Action| action is Attempt,
            );
        }
    }
}

/// A throttled account is reported as throttled and then as having served a request, so that the
/// next attempt goes to another; nothing else is reported. The attempt follows after a wait, or the
/// refusal is the outcome where there is none left.
pub proof fn law_throttled_accounts_are_passed_over(
    call: UpstreamCall,
    credential: u64,
    status: HttpStatus,
    body: String,
)
    requires
        call.stage == (Stage::Reading { credential, status }),
        status.number() == 429,
    ensures
        ({
            let (next, actions) = call.after_event(Event::BodyRead(body));
            &&& actions.len() >= 3
            &&& actions[0] == (Action::ReportThrottled { credential })
            &&& actions[1] == (Action::ReportSuccess { credential })
            &&& if call.attempt + 1 < call.max_retries {
                &&& actions.len() == 4
                &&& actions[2] is Wait
                &&& actions[3] is Attempt
                &&& next == UpstreamCall {
                    attempt: (call.attempt + 1) as usize,
                    stage: Stage::Attempting,
                    ..call
                }
            } else {
                &&& actions.len() == 3
                &&& actions[2] == Action::Fail(
                    CallError::Refused { kind: call.kind, status, body },
                )
                &&& next == UpstreamCall { stage: Stage::Finished, ..call }
            }
        }),
{
}

/// What goes wrong before a request is sent costs no wait: without an account or without headers
/// the next attempt follows at once, and the reason is the outcome where there is none left. Without
/// a client the call fails whatever attempts are left.
pub proof fn law_local_failures_are_not_waited_out(call: UpstreamCall, why: String)
    requires
        call.stage is Attempting,
    ensures
        ({
            let next = UpstreamCall {
                attempt: (call.attempt + 1) as usize,
                stage: Stage::Attempting,
                ..call
            };
            let ended = UpstreamCall { stage: Stage::Finished, ..call };
            &&& call.attempt + 1 < call.max_retries ==> {
                &&& call.after_event(Event::ContextFailed(why)) == (next, seq![Action::Attempt])
                &&& call.after_event(Event::HeadersFailed(why)) == (next, seq![Action::Attempt])
            }
            &&& call.attempt + 1 >= call.max_retries ==> {
                &&& call.after_event(Event::ContextFailed(why)) == (
                    ended,
                    seq![Action::Fail(CallError::Context(why))],
                )
                &&& call.after_event(Event::HeadersFailed(why)) == (
                    ended,
                    seq![Action::Fail(CallError::Headers(why))],
                )
            }
            &&& call.after_event(Event::ClientFailed(why)) == (
                ended,
                seq![Action::Fail(CallError::Client(why))],
            )
        }),
{
}

/// The outcome of a call whose attempts all fail is the failure of the last one.
pub proof fn law_the_last_failure_is_the_outcome(
    call: UpstreamCall,
    why: String,
    secs: u64,
    credential: u64,
    status: HttpStatus,
    body: String,
)
    requires
        call.attempt + 1 >= call.max_retries,
        is_passing(status.number()),
    ensures
        call.stage is Attempting ==> {
            &&& call.after_event(Event::SendFailed(why)).1 == seq![
                Action::Fail(CallError::Transport(why)),
            ]
            &&& call.after_event(Event::FirstByteTimedOut(secs)).1 == seq![
                Action::Fail(CallError::FirstByteTimeout(secs)),
            ]
        },
        call.stage == (Stage::Reading { credential, status }) ==> call.after_event(
            Event::BodyRead(body),
        ).1 == seq![Action::Fail(CallError::Refused { kind: call.kind, status, body })],
{
}

/// A call stays what it was begun as, and goes on by one attempt at a time, never past its budget.
pub proof fn law_calls_stay_what_they_are(call: UpstreamCall, event: Event)
    ensures
        ({
            let next = call.after_event(event).0;
            &&& next.kind == call.kind
            &&& next.max_retries == call.max_retries
            &&& next.tracks_rpm == call.tracks_rpm
            &&& next.attempt == call.attempt || (next.attempt == call.attempt + 1 && next.attempt
                < next.max_retries)
        }),
{
}

/// An event that a call does not wait for changes nothing.
pub proof fn law_other_events_change_nothing(call: UpstreamCall, event: Event)
    requires
        !is_awaited(call, event),
    ensures
        call.after_event(event) == (call, Seq::<Action>::empty()),
{
}

/// Every report is on the account whose request was answered.
pub proof fn law_reports_name_the_account(call: UpstreamCall, event: Event, i: int)
    requires
        0 <= i < call.after_event(event).1.len(),
        is_report(call.after_event(event).1[i]),
    ensures
        ({
            let answered = match (call.stage, event) {
                (Stage::Attempting, Event::Responded { credential, status }) => Some(credential),
                (Stage::Reading { credential, status }, Event::BodyRead(body)) => Some(credential),
                _ => None,
            };
            match call.after_event(event).1[i] {
                Action::ReportSuccess { credential } => answered == Some(credential),
                Action::ReportThrottled { credential } => answered == Some(credential),
                Action::ReportFailure { credential } => answered == Some(credential),
                Action::ReportQuotaExhausted { credential } => answered == Some(credential),
                Action::RecordRpm { credential } => answered == Some(credential),
                _ => false,
            }
        }),
{
}

/// A response whose body has been read was refused: no disposition has it delivered, and only two
/// have an account reported for it before the call goes on or ends.
pub proof fn law_read_responses_are_not_delivered(
    call: UpstreamCall,
    credential: u64,
    status: HttpStatus,
    body: String,
    disposition: Disposition,
)
    ensures
        ({
            let (next, actions) = call.after_refusal(credential, status, body, disposition);
            let refused = CallError::Refused { kind: call.kind, status, body };
            &&& forall|i: int| 0 <= i < actions.len() ==> !(#[trigger] actions[i] is Deliver)
            &&& disposition is Deliver || disposition is Reject ==> actions == seq![
                Action::Fail(refused),
            ] && next.stage is Finished
            &&& disposition is ExhaustQuota ==> actions == seq![
                Action::ReportQuotaExhausted { credential },
            ] && next.stage == (Stage::Reporting { status, body })
            &&& disposition is BlameAccount ==> actions == seq![
                Action::ReportFailure { credential },
            ] && next.stage == (Stage::Reporting { status, body })
        }),
{
}

/// What messages say: which service failed, the status code with its phrase and the body of the
/// response, how many seconds or attempts there were, or the reason as it came from elsewhere.
pub proof fn law_messages_say_what_failed(
    kind: CallKind,
    status: HttpStatus,
    body: String,
    secs: u64,
    max_retries: usize,
)
    ensures
        ({
            let service = match kind {
                CallKind::Api { streaming } => if streaming {
                    "流式 API 请求失败"@
                } else {
                    "非流式 API 请求失败"@
                },
                CallKind::Mcp => "MCP 请求失败"@,
            };
            &&& (CallError::Refused { kind, status, body }).text() == service + ": "@ + status_line(
                status.number(),
            ) + " "@ + body@
            &&& (CallError::AccountsExhausted { kind, status, body }).text() == service
                + "（所有账号已用尽）: "@ + status_line(status.number()) + " "@ + body@
            &&& (CallError::OutOfRetries { kind, max_retries }).text() == service
                + "：已达到最大重试次数（"@ + decimal_digits(max_retries as nat) + "次）"@
            &&& CallError::FirstByteTimeout(secs).text() == "上游首字节超时："@ + decimal_digits(
                secs as nat,
            ) + "s 内未返回响应头"@
            &&& CallError::Context(body).text() == body@
            &&& CallError::Headers(body).text() == body@
            &&& CallError::Client(body).text() == body@
            &&& CallError::Transport(body).text() == body@
        }),
{
}

/// No wait is in vain: every wait is directly followed by another attempt. So nothing is waited
/// for after the last attempt.
pub proof fn law_every_wait_leads_to_an_attempt(
    kind: CallKind,
    max_retries: usize,
    tracks_rpm: bool,
    events: Seq<Event>,
)
    ensures
        waits_lead_to_attempts(transcript(kind, max_retries, tracks_rpm, events)),
    decreases events.len(),
{
    let (call, opening) = UpstreamCall::begun(kind, max_retries, tracks_rpm);
    if events.len() == 0 {
        assert(opening + run(call, events).1 =~= opening);
    } else {
        let (before, actions) = run(call, events.drop_last());
        let (after, more) = before.after_event(events.last());
        law_every_wait_leads_to_an_attempt(kind, max_retries, tracks_rpm, events.drop_last());
        let earlier = opening + actions;
        assert(waits_lead_to_attempts(more));
        assert(opening + (actions + more) =~= earlier + more);
        let all = earlier + more;
        assert forall|i: int| 0 <= i < all.len() && #[trigger] all[i] is Wait implies i + 1
            < all.len() && all[i + 1] is Attempt by {
            if i < earlier.len() {
                assert(all[i] == earlier[i]);
                assert(all[i + 1] == earlier[i + 1]);
            } else {
                assert(all[i] == more[i - earlier.len()]);
                assert(all[i + 1] == more[i + 1 - earlier.len()]);
            }
        }
    }
}

/// Whether each wait is directly followed by an attempt.
pub open spec fn waits_lead_to_attempts(actions: Seq<Action>) -> bool {
    forall|i: int|
        0 <= i < actions.len() && #[trigger] actions[i] is Wait ==> i + 1 < actions.len()
            && actions[i + 1] is Attempt
}

/// Whether a response with the status code `code` is a failure of the upstream that may pass: one
/// with 408, or with a code that tells neither of success nor of a fault of the request.
pub open spec fn is_passing(code: u16) -> bool {
    code == 408 || code < 200 || 300 <= code < 400 || code >= 500
}

/// Passing failures are never held against an account: a request that could not be sent, response
/// headers that did not arrive in time, and a passing failure of the upstream make the call report
/// nothing.
pub proof fn law_passing_failures_spare_the_accounts(call: UpstreamCall, event: Event)
    requires
        match event {
            Event::SendFailed(_) => true,
            Event::FirstByteTimedOut(_) => true,
            Event::BodyRead(_) => call.stage matches Stage::Reading { credential, status }
                && is_passing(status.number()),
            _ => false,
        },
    ensures
        forall|i: int|
            0 <= i < call.after_event(event).1.len() ==> !is_report(
                #[trigger] call.after_event(event).1[i],
            ),
{
}

/// Passing failures, throttling among them, are tried again after a wait while there is an attempt
/// left, and no account is disabled for them.
pub proof fn law_passing_failures_are_retried(call: UpstreamCall, event: Event)
    requires
        match event {
            Event::SendFailed(_) => call.stage is Attempting,
            Event::FirstByteTimedOut(_) => call.stage is Attempting,
            Event::BodyRead(_) => call.stage matches Stage::Reading { credential, status } && (
            is_passing(status.number()) || status.number() == 429),
            _ => false,
        },
    ensures
        ({
            let (next, actions) = call.after_event(event);
            &&& forall|i: int|
                0 <= i < actions.len() ==> {
                    &&& !(#[trigger] actions[i] is ReportFailure)
                    &&& !(actions[i] is ReportQuotaExhausted)
                }
            &&& if call.attempt + 1 < call.max_retries {
                &&& next.attempt == call.attempt + 1
                &&& next.stage is Attempting
                &&& actions.len() >= 2
                &&& actions[actions.len() - 2] is Wait
                &&& actions[actions.len() - 1] is Attempt
            } else {
                &&& next.stage is Finished
                &&& actions.len() >= 1
                &&& actions[actions.len() - 1] is Fail
            }
        }),
{
}

/// A request that is itself at fault is refused at once: no account is reported and no attempt
/// follows. That is so for every status code from 400 to 499 but 401, 403, 408 and 429, and but
/// 402 where the body says that the monthly quota is used up.
pub proof fn law_faulty_requests_fail_at_once(
    call: UpstreamCall,
    credential: u64,
    status: HttpStatus,
    body: String,
)
    requires
        call.stage == (Stage::Reading { credential, status }),
        400 <= status.number() < 500,
        status.number() != 401,
        status.number() != 403,
        status.number() != 408,
        status.number() != 429,
        status.number() == 402 ==> !is_monthly_limit(body@),
    ensures
        call.after_event(Event::BodyRead(body)) == (
            UpstreamCall { stage: Stage::Finished, ..call },
            seq![Action::Fail(CallError::Refused { kind: call.kind, status, body })],
        ),
{
}

/// A used up quota is reported for its account alone, and so is a failure of the account. Then the
/// next attempt follows at once while there is an account and an attempt left, and the call fails
/// otherwise.
pub proof fn law_accounts_are_failed_over(
    call: UpstreamCall,
    credential: u64,
    status: HttpStatus,
    body: String,
    has_available: bool,
)
    requires
        call.stage == (Stage::Reading { credential, status }),
        status.number() == 401 || status.number() == 403 || (status.number() == 402
            && is_monthly_limit(body@)),
    ensures
        ({
            let (reporting, reports) = call.after_event(Event::BodyRead(body));
            let (next, actions) = reporting.after_event(Event::Reported { has_available });
            let refused = CallError::Refused { kind: call.kind, status, body };
            let exhausted = CallError::AccountsExhausted { kind: call.kind, status, body };
            &&& reports == if status.number() == 402 {
                seq![Action::ReportQuotaExhausted { credential }]
            } else {
                seq![Action::ReportFailure { credential }]
            }
            &&& actions == if !has_available {
                seq![Action::Fail(exhausted)]
            } else if call.attempt + 1 < call.max_retries {
                seq![Action::Attempt]
            } else {
                seq![Action::Fail(refused)]
            }
            &&& next == if has_available && call.attempt + 1 < call.max_retries {
                UpstreamCall {
                    attempt: (call.attempt + 1) as usize,
                    stage: Stage::Attempting,
                    ..call
                }
            } else {
                UpstreamCall { stage: Stage::Finished, ..call }
            }
        }),
{
}

/// With an account to try, every call has an attempt: no call fails because there was none to
/// make.
pub proof fn law_an_account_gives_an_attempt(
    kind: CallKind,
    total_credentials: nat,
    tracks_rpm: bool,
    events: Seq<Event>,
)
    requires
        total_credentials > 0,
    ensures
        ({
            let actions = transcript(
                kind,
                retry_budget_of(total_credentials) as usize,
                tracks_rpm,
                events,
            );
            forall|i: int|
                0 <= i < actions.len() ==> !(#[trigger] actions[i] matches Action::Fail(error)
                    && error is OutOfRetries)
        }),
    decreases events.len(),
{
    let max_retries = retry_budget_of(total_credentials) as usize;
    let (call, opening) = UpstreamCall::begun(kind, max_retries, tracks_rpm);
    if events.len() > 0 {
        law_an_account_gives_an_attempt(
            kind,
            total_credentials,
            tracks_rpm,
            events.drop_last(),
        );
        let (before, actions) = run(call, events.drop_last());
        let (after, more) = before.after_event(events.last());
        assert(opening + (actions + more) =~= (opening + actions) + more);
    }
}

/// A response that is delivered is one that came with a status code of success, for the account
/// that it is delivered for.
pub proof fn law_delivered_responses_are_successes(
    kind: CallKind,
    max_retries: usize,
    tracks_rpm: bool,
    events: Seq<Event>,
    credential: u64,
)
    requires
        transcript(kind, max_retries, tracks_rpm, events).contains(Action::Deliver { credential }),
    ensures
        exists|i: int|
            0 <= i < events.len() && (#[trigger] events[i] matches Event::Responded {
                credential: c,
                status,
            } && c == credential && 200 <= status.number() < 300),
    decreases events.len(),
{
    let (call, opening) = UpstreamCall::begun(kind, max_retries, tracks_rpm);
    if events.len() > 0 {
        let (before, actions) = run(call, events.drop_last());
        let (after, more) = before.after_event(events.last());
        let earlier = opening + actions;
        assert(opening + (actions + more) =~= earlier + more);
        let at = choose|i: int|
            0 <= i < (earlier + more).len() && (earlier + more)[i] == (Action::Deliver {
                credential,
            });
        if at < earlier.len() {
            assert(earlier[at] == (Action::Deliver { credential }));
            law_delivered_responses_are_successes(
                kind,
                max_retries,
                tracks_rpm,
                events.drop_last(),
                credential,
            );
            let i = choose|i: int|
                0 <= i < events.drop_last().len() && (#[trigger] events.drop_last()[i] matches Event::Responded {
                    credential: c,
                    status,
                } && c == credential && 200 <= status.number() < 300);
            assert(events[i] == events.drop_last()[i]);
        } else {
            assert(more[at - earlier.len()] == (Action::Deliver { credential }));
            assert(events[events.len() - 1] == events.last());
        }
    } else {
        assert(opening + run(call, events).1 =~= opening);
    }
}

} // verus!
