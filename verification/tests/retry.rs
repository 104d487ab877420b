use kiro_provider::retry::{
    retry_budget, Action, CallError, CallKind, Event, Pause, Stage, UpstreamCall,
};
use kiro_provider::settings::{first_byte_limit, REQUEST_TIMEOUT_SECS};
use kiro_provider::status::{disposition, Disposition, HttpStatus};

const API: CallKind = CallKind::Api { streaming: true };

fn status(code: u16) -> HttpStatus {
    HttpStatus::new(code).unwrap()
}

/// The actions as short texts, so that whole scripts can be compared.
fn script(actions: &[Action]) -> Vec<String> {
    actions
        .iter()
        .map(|action| match action {
            Action::Attempt => "attempt".to_string(),
            Action::ReadBody => "read".to_string(),
            Action::ReportSuccess { credential } => format!("success {}", credential),
            Action::ReportThrottled { credential } => format!("throttled {}", credential),
            Action::ReportFailure { credential } => format!("failure {}", credential),
            Action::ReportQuotaExhausted { credential } => format!("quota {}", credential),
            Action::RecordRpm { credential } => format!("rpm {}", credential),
            Action::Wait(Pause::Retry { attempt }) => format!("wait {}", attempt),
            Action::Wait(Pause::Throttle { attempt }) => format!("cool {}", attempt),
            Action::Deliver { credential } => format!("deliver {}", credential),
            Action::Fail(error) => format!("fail {}", error.message()),
        })
        .collect()
}

fn refused(call: UpstreamCall, code: u16, body: &str) -> (UpstreamCall, Vec<String>) {
    let (call, actions) = call.step(Event::Responded {
        credential: 7,
        status: status(code),
    });
    assert_eq!(script(&actions), ["read"]);
    let (call, actions) = call.step(Event::BodyRead(body.to_string()));
    (call, script(&actions))
}

fn begun(kind: CallKind, attempts: usize) -> UpstreamCall {
    let (call, actions) = UpstreamCall::begin(kind, attempts, false);
    assert_eq!(script(&actions), ["attempt"]);
    call
}

#[test]
fn budget_grows_with_the_accounts_up_to_nine() {
    assert_eq!(retry_budget(0), 0);
    assert_eq!(retry_budget(1), 3);
    assert_eq!(retry_budget(2), 6);
    assert_eq!(retry_budget(3), 9);
    assert_eq!(retry_budget(4), 9);
    assert_eq!(retry_budget(usize::MAX), 9);
}

#[test]
fn no_account_no_attempt() {
    let (call, actions) = UpstreamCall::begin(API, 0, false);
    assert_eq!(
        script(&actions),
        ["fail 流式 API 请求失败：已达到最大重试次数（0次）"]
    );
    assert!(matches!(call.stage, Stage::Finished));
    let (_, actions) = UpstreamCall::begin(CallKind::Mcp, 0, false);
    assert_eq!(
        script(&actions),
        ["fail MCP 请求失败：已达到最大重试次数（0次）"]
    );
}

#[test]
fn success_is_reported_and_delivered() {
    let call = begun(API, 3);
    let (call, actions) = call.step(Event::Responded {
        credential: 4,
        status: status(200),
    });
    assert_eq!(script(&actions), ["success 4", "deliver 4"]);
    assert!(matches!(call.stage, Stage::Finished));

    let (call, _) = UpstreamCall::begin(CallKind::Mcp, 3, true);
    let (call, actions) = call.step(Event::Responded {
        credential: 4,
        status: status(299),
    });
    assert_eq!(script(&actions), ["success 4", "rpm 4", "deliver 4"]);
    let (_, actions) = call.step(Event::Responded {
        credential: 4,
        status: status(200),
    });
    assert!(actions.is_empty());
}

#[test]
fn bad_requests_fail_at_once() {
    let (call, actions) = refused(begun(API, 9), 400, "bad");
    assert_eq!(actions, ["fail 流式 API 请求失败: 400 Bad Request bad"]);
    assert!(matches!(call.stage, Stage::Finished));
    let (_, actions) = refused(begun(CallKind::Mcp, 9), 404, "gone");
    assert_eq!(actions, ["fail MCP 请求失败: 404 Not Found gone"]);
    let (_, actions) = refused(begun(CallKind::Api { streaming: false }, 9), 402, "unpaid");
    assert_eq!(
        actions,
        ["fail 非流式 API 请求失败: 402 Payment Required unpaid"]
    );
}

#[test]
fn used_up_quota_switches_accounts() {
    let body = r#"{"reason":"MONTHLY_REQUEST_COUNT"}"#;
    let (call, actions) = refused(begun(API, 3), 402, body);
    assert_eq!(actions, ["quota 7"]);
    let (call, actions) = call.step(Event::Reported { has_available: true });
    assert_eq!(script(&actions), ["attempt"]);
    assert_eq!(call.attempt, 1);
    let (call, actions) = refused(call, 402, "MONTHLY_REQUEST_COUNT");
    assert_eq!(actions, ["quota 7"]);
    let (_, actions) = call.step(Event::Reported { has_available: false });
    assert_eq!(
        script(&actions),
        ["fail 流式 API 请求失败（所有账号已用尽）: 402 Payment Required MONTHLY_REQUEST_COUNT"]
    );
}

#[test]
fn account_failures_switch_accounts() {
    for code in [401, 403] {
        let (call, actions) = refused(begun(CallKind::Mcp, 2), code, "no");
        assert_eq!(actions, ["failure 7"]);
        let (call, actions) = call.step(Event::Reported { has_available: true });
        assert_eq!(script(&actions), ["attempt"]);
        let (call, actions) = refused(call, code, "no");
        assert_eq!(actions, ["failure 7"]);
        let (_, actions) = call.step(Event::Reported { has_available: true });
        assert_eq!(actions.len(), 1);
        assert!(script(&actions)[0].starts_with("fail MCP 请求失败: 40"));
    }
}

#[test]
fn throttling_is_reported_and_waited_out() {
    let (call, actions) = refused(begun(API, 2), 429, "slow");
    assert_eq!(actions, ["throttled 7", "success 7", "cool 0", "attempt"]);
    let (_, actions) = refused(call, 429, "slow");
    assert_eq!(
        actions,
        [
            "throttled 7",
            "success 7",
            "fail 流式 API 请求失败: 429 Too Many Requests slow"
        ]
    );
    let (_, actions) = refused(begun(CallKind::Mcp, 2), 429, "slow");
    assert_eq!(actions, ["throttled 7", "success 7", "wait 0", "attempt"]);
}

#[test]
fn passing_failures_are_tried_again() {
    for code in [408, 500, 502, 599, 301, 100, 600, 999] {
        let (call, actions) = refused(begun(API, 2), code, "x");
        assert_eq!(actions, ["wait 0", "attempt"]);
        let (_, actions) = refused(call, code, "x");
        assert_eq!(actions.len(), 1);
        assert!(actions[0].starts_with(&format!("fail 流式 API 请求失败: {} ", code)));
    }
    let (_, actions) = refused(begun(API, 1), 999, "x");
    assert_eq!(actions, ["fail 流式 API 请求失败: 999 <unknown status code> x"]);
}

#[test]
fn sending_failures_are_tried_again() {
    let call = begun(API, 3);
    let (call, actions) = call.step(Event::SendFailed("reset".to_string()));
    assert_eq!(script(&actions), ["wait 0", "attempt"]);
    let (call, actions) = call.step(Event::FirstByteTimedOut(32));
    assert_eq!(script(&actions), ["wait 1", "attempt"]);
    let (_, actions) = call.step(Event::FirstByteTimedOut(45));
    assert_eq!(script(&actions), ["fail 上游首字节超时：45s 内未返回响应头"]);
}

#[test]
fn local_failures_are_tried_again_without_a_wait() {
    let call = begun(API, 3);
    let (call, actions) = call.step(Event::ContextFailed("none".to_string()));
    assert_eq!(script(&actions), ["attempt"]);
    let (call, actions) = call.step(Event::HeadersFailed("no machine".to_string()));
    assert_eq!(script(&actions), ["attempt"]);
    let (_, actions) = call.step(Event::ContextFailed("still none".to_string()));
    assert_eq!(script(&actions), ["fail still none"]);

    let (_, actions) = begun(API, 3).step(Event::ClientFailed("no proxy".to_string()));
    assert_eq!(script(&actions), ["fail no proxy"]);
    let (_, actions) = begun(API, 1).step(Event::HeadersFailed("no machine".to_string()));
    assert_eq!(script(&actions), ["fail no machine"]);
    let (_, actions) = begun(API, 1).step(Event::SendFailed("reset".to_string()));
    assert_eq!(script(&actions), ["fail reset"]);
}

#[test]
fn attempts_stay_within_the_budget() {
    for accounts in 0..6 {
        let budget = retry_budget(accounts);
        let (mut call, mut actions) = UpstreamCall::begin(API, budget, false);
        let mut attempts = 0;
        while let Some(Action::Attempt) = actions.last() {
            attempts += 1;
            let next = call.step(Event::SendFailed("down".to_string()));
            call = next.0;
            actions = next.1;
        }
        assert_eq!(attempts, budget);
        assert!(attempts <= 9);
        assert!(matches!(call.stage, Stage::Finished));
    }
}

#[test]
fn unexpected_events_change_nothing() {
    let call = begun(API, 3);
    let (call, actions) = call.step(Event::BodyRead("early".to_string()));
    assert!(actions.is_empty());
    let (call, actions) = call.step(Event::Reported { has_available: false });
    assert!(actions.is_empty());
    assert!(matches!(call.stage, Stage::Attempting));
    assert_eq!(call.attempt, 0);
}

#[test]
fn dispositions() {
    assert!(disposition(200, false) == Disposition::Deliver);
    assert!(disposition(299, true) == Disposition::Deliver);
    assert!(disposition(402, true) == Disposition::ExhaustQuota);
    assert!(disposition(402, false) == Disposition::Reject);
    assert!(disposition(400, true) == Disposition::Reject);
    assert!(disposition(401, true) == Disposition::BlameAccount);
    assert!(disposition(403, false) == Disposition::BlameAccount);
    assert!(disposition(429, true) == Disposition::Throttle);
    assert!(disposition(408, true) == Disposition::Transient);
    assert!(disposition(499, false) == Disposition::Reject);
    assert!(disposition(500, false) == Disposition::Transient);
    assert!(disposition(199, false) == Disposition::Transient);
    assert!(disposition(300, false) == Disposition::Transient);
}

#[test]
fn status_codes_have_three_digits() {
    assert!(HttpStatus::new(99).is_none());
    assert!(HttpStatus::new(1000).is_none());
    for code in 100..1000 {
        let status = HttpStatus::new(code).unwrap();
        assert_eq!(status.as_u16(), code);
        let displayed = reqwest::StatusCode::from_u16(code).unwrap();
        assert_eq!(status.line(), format!("{}", displayed));
    }
    assert_eq!(status(418).line(), "418 I'm a teapot");
}

#[test]
fn errors_have_messages() {
    let refused = CallError::Refused {
        kind: CallKind::Mcp,
        status: status(503),
        body: String::new(),
    };
    assert_eq!(refused.message(), "MCP 请求失败: 503 Service Unavailable ");
    let exhausted = CallError::AccountsExhausted {
        kind: CallKind::Mcp,
        status: status(403),
        body: "b".to_string(),
    };
    assert_eq!(
        exhausted.message(),
        "MCP 请求失败（所有账号已用尽）: 403 Forbidden b"
    );
    let out = CallError::OutOfRetries {
        kind: CallKind::Api { streaming: false },
        max_retries: 12,
    };
    assert_eq!(out.message(), "非流式 API 请求失败：已达到最大重试次数（12次）");
    assert_eq!(CallError::Transport("t".to_string()).message(), "t");
    assert_eq!(CallError::Client("c".to_string()).message(), "c");
    assert_eq!(CallError::Context("x".to_string()).message(), "x");
    assert_eq!(CallError::Headers("h".to_string()).message(), "h");
    assert_eq!(
        CallError::FirstByteTimeout(0).message(),
        "上游首字节超时：0s 内未返回响应头"
    );
}

#[test]
fn first_bytes_are_waited_for_within_a_limit() {
    assert_eq!(first_byte_limit(API, 32), Some(32));
    assert_eq!(first_byte_limit(CallKind::Api { streaming: false }, 1), Some(1));
    assert_eq!(first_byte_limit(API, 0), None);
    assert_eq!(first_byte_limit(CallKind::Mcp, 32), None);
    assert_eq!(REQUEST_TIMEOUT_SECS, 180);
}

#[test]
fn calls_end_after_three_events_for_each_attempt() {
    let mut call = begun(CallKind::Mcp, 4);
    let mut events = 0;
    let mut last = String::new();
    while !matches!(call.stage, Stage::Finished) {
        let event = match &call.stage {
            Stage::Attempting => Event::Responded {
                credential: 1,
                status: status(403),
            },
            Stage::Reading { .. } => Event::BodyRead("no".to_string()),
            _ => Event::Reported { has_available: true },
        };
        let (next, actions) = call.step(event);
        call = next;
        events += 1;
        last = script(&actions).pop().unwrap();
    }
    assert_eq!(events, 12);
    assert_eq!(last, "fail MCP 请求失败: 403 Forbidden no");
}

#[test]
fn pauses_take_their_delays() {
    for _ in 0..50 {
        let retry = Pause::Retry { attempt: 1 }.delay();
        assert!((400..=500).contains(&retry));
        let throttle = Pause::Throttle { attempt: 1 }.delay();
        assert!((1600..=2133).contains(&throttle));
    }
}

#[test]
fn nothing_follows_the_outcome() {
    for codes in [[500, 200, 200], [429, 429, 429], [403, 400, 200], [402, 503, 418]] {
        let mut call = begun(API, 3);
        let mut asked: Vec<String> = vec![];
        for code in codes {
            for event in [
                Event::Responded {
                    credential: 1,
                    status: status(code),
                },
                Event::BodyRead(String::new()),
                Event::Reported { has_available: true },
            ] {
                let (next, actions) = call.step(event);
                call = next;
                asked.extend(script(&actions));
            }
        }
        assert!(matches!(call.stage, Stage::Finished));
        for (i, action) in asked.iter().enumerate() {
            let outcome = action.starts_with("fail ") || action.starts_with("deliver");
            assert_eq!(outcome, i == asked.len() - 1);
        }
    }
}
