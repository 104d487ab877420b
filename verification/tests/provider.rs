use kiro_provider::clients::ClientCache;
use kiro_provider::headers::{api_headers, fits_header, mcp_headers, HeaderError};
use kiro_provider::provider::{CallContext, Config, KiroProvider};
use kiro_provider::retry::{Action, CallKind, Stage};
use reqwest::header::{HeaderMap, AUTHORIZATION, CONTENT_TYPE};

fn config(kiro_version: &str) -> Config {
    Config {
        api_region: "us-east-1".to_string(),
        kiro_version: kiro_version.to_string(),
        system_version: "darwin#24.6.0".to_string(),
        node_version: "22.21.1".to_string(),
    }
}

fn create_test_provider(config: Config) -> KiroProvider {
    KiroProvider::new(config, reqwest::Client::new(), 1, None, None)
}

fn context() -> CallContext {
    CallContext {
        id: 1,
        api_region: "us-east-1".to_string(),
        machine_id: Some("a".repeat(64)),
        token: "test_token".to_string(),
    }
}

fn listed(headers: &HeaderMap) -> Vec<(String, String)> {
    headers
        .iter()
        .map(|(name, value)| {
            let text = String::from_utf8(value.as_bytes().to_vec()).unwrap();
            (name.as_str().to_string(), text)
        })
        .collect()
}

#[test]
fn test_base_url() {
    let provider = create_test_provider(config("0.8.0"));
    assert!(provider.base_url().contains("amazonaws.com"));
    assert!(provider.base_url().contains("generateAssistantResponse"));
}

#[test]
fn test_base_domain() {
    let provider = create_test_provider(config("0.8.0"));
    assert_eq!(provider.base_domain(), "q.us-east-1.amazonaws.com");
}

#[test]
fn test_build_headers() {
    let provider = create_test_provider(config("0.8.0"));
    let ctx = context();
    let headers = provider.build_headers(&ctx, "{}").unwrap();

    assert_eq!(headers.get(CONTENT_TYPE).unwrap(), "application/json");
    assert_eq!(headers.get("x-amzn-codewhisperer-optout").unwrap(), "true");
    assert_eq!(headers.get("x-amzn-kiro-agent-mode").unwrap(), "vibe");
    assert!(
        headers
            .get(AUTHORIZATION)
            .unwrap()
            .to_str()
            .unwrap()
            .starts_with("Bearer ")
    );
    assert!(headers.get("connection").is_none());
}

#[test]
fn test_build_headers_spectask_mode() {
    let provider = create_test_provider(config("0.8.0"));
    let ctx = context();
    let spectask_body = r#"{"conversationState":{"agentTaskType":"spectask"}}"#;
    let headers = provider.build_headers(&ctx, spectask_body).unwrap();
    assert_eq!(headers.get("x-amzn-kiro-agent-mode").unwrap(), "spectask");
}

#[test]
fn urls_by_region() {
    let mut configured = config("0.8.0");
    configured.api_region = "eu-central-1".to_string();
    let provider = create_test_provider(configured);
    assert_eq!(
        provider.base_url(),
        "https://q.eu-central-1.amazonaws.com/generateAssistantResponse"
    );
    assert_eq!(provider.mcp_url(), "https://q.eu-central-1.amazonaws.com/mcp");
    assert_eq!(provider.base_domain(), "q.eu-central-1.amazonaws.com");
    let ctx = context();
    assert_eq!(
        KiroProvider::base_url_for(&ctx),
        "https://q.us-east-1.amazonaws.com/generateAssistantResponse"
    );
    assert_eq!(KiroProvider::mcp_url_for(&ctx), "https://q.us-east-1.amazonaws.com/mcp");
    assert_eq!(KiroProvider::base_domain_for(&ctx), "q.us-east-1.amazonaws.com");
}

#[test]
fn api_headers_in_their_order() {
    let configured = config("0.8.0");
    let mut ctx = context();
    ctx.machine_id = Some("m1".to_string());
    let headers = api_headers(&configured, &ctx, "vibe", "id-1").unwrap();
    let agent = "aws-sdk-js/1.0.27 ua/2.1 os/darwin#24.6.0 lang/js md/nodejs#22.21.1 \
                 api/codewhispererstreaming#1.0.27 m/E KiroIDE-0.8.0-m1";
    let expected = [
        ("content-type", "application/json"),
        ("x-amzn-codewhisperer-optout", "true"),
        ("x-amzn-kiro-agent-mode", "vibe"),
        ("x-amz-user-agent", "aws-sdk-js/1.0.27 KiroIDE-0.8.0-m1"),
        ("user-agent", agent),
        ("host", "q.us-east-1.amazonaws.com"),
        ("amz-sdk-invocation-id", "id-1"),
        ("amz-sdk-request", "attempt=1; max=3"),
        ("authorization", "Bearer test_token"),
    ];
    let expected: Vec<(String, String)> = expected
        .iter()
        .map(|(name, text)| (name.to_string(), text.to_string()))
        .collect();
    assert_eq!(listed(&headers), expected);

    let tool: Vec<(String, String)> = listed(&mcp_headers(&configured, &ctx, "id-1").unwrap());
    let mut fewer = expected;
    fewer.remove(2);
    fewer.remove(1);
    assert_eq!(tool, fewer);
}

#[test]
fn each_request_has_its_own_invocation() {
    let provider = create_test_provider(config("0.8.0"));
    let ctx = context();
    let first = provider.build_mcp_headers(&ctx).unwrap();
    let second = provider.build_mcp_headers(&ctx).unwrap();
    let id = first.get("amz-sdk-invocation-id").unwrap().to_str().unwrap();
    assert_ne!(first.get("amz-sdk-invocation-id"), second.get("amz-sdk-invocation-id"));
    assert_eq!(id.len(), 36);
    for (i, c) in id.chars().enumerate() {
        if [8, 13, 18, 23].contains(&i) {
            assert_eq!(c, '-');
        } else {
            assert!(c.is_ascii_hexdigit() && !c.is_ascii_uppercase());
        }
    }
    assert_eq!(&id[14..15], "4");
    assert!(["8", "9", "a", "b"].contains(&&id[19..20]));
    assert!(first.get("x-amzn-kiro-agent-mode").is_none());
}

#[test]
fn headers_need_a_machine() {
    let provider = create_test_provider(config("0.8.0"));
    let mut ctx = context();
    ctx.machine_id = None;
    assert!(provider.can_build_headers(&ctx));
    let error = provider.build_headers(&ctx, "{}").unwrap_err();
    assert_eq!(error, HeaderError::MissingMachineId);
    assert_eq!(error.message(), "无法生成 machine_id，请检查凭证配置");
    assert_eq!(provider.build_mcp_headers(&ctx).unwrap_err(), HeaderError::MissingMachineId);
    ctx.token = "bad\ntoken".to_string();
    assert!(provider.can_build_headers(&ctx));
    assert_eq!(provider.build_headers(&ctx, "{}").unwrap_err(), HeaderError::MissingMachineId);
}

#[test]
fn header_texts_are_those_that_the_header_type_takes() {
    for code in 0..0x3000u32 {
        if let Some(c) = char::from_u32(code) {
            let text = c.to_string();
            assert_eq!(
                fits_header(&text),
                reqwest::header::HeaderValue::from_str(&text).is_ok()
            );
        }
    }
    assert!(fits_header(""));
    assert!(!fits_header("line\nbreak"));

    let provider = create_test_provider(config("0.8.0"));
    let mut ctx = context();
    assert!(provider.can_build_headers(&ctx));
    ctx.token = "bad\rtoken".to_string();
    assert!(!provider.can_build_headers(&ctx));
    let provider = create_test_provider(config("0.8\u{7f}"));
    assert!(!provider.can_build_headers(&context()));
}

#[test]
fn non_ascii_tokens_are_carried() {
    let configured = config("0.8.0");
    let mut ctx = context();
    ctx.token = "令牌".to_string();
    let headers = api_headers(&configured, &ctx, "vibe", "id").unwrap();
    assert_eq!(
        headers.get(AUTHORIZATION).unwrap().as_bytes(),
        "Bearer 令牌".as_bytes()
    );
}

#[test]
fn clients_are_shared_by_proxy() {
    let proxy = Some("http://127.0.0.1:7890".to_string());
    let mut provider = KiroProvider::with_proxy(
        config("0.8.0"),
        proxy.clone(),
        reqwest::Client::new(),
        1,
        None,
        None,
    );
    assert!(provider.client_for(&proxy).is_some());
    assert!(provider.client_for(&None).is_none());
    assert!(provider.client_for(&Some("http://127.0.0.1:7891".to_string())).is_none());
    provider.keep_client(None, reqwest::Client::new());
    assert!(provider.client_for(&None).is_some());
    assert!(provider.client_for(&proxy).is_some());
    assert_eq!(provider.global_proxy, proxy);
}

#[test]
fn provider_starts_with_the_configured_limit() {
    let mut provider = KiroProvider::new(
        config("0.8.0"),
        reqwest::Client::new(),
        3,
        Some(" 4 "),
        None,
    );
    let s = provider.concurrency_snapshot();
    assert_eq!((s.max, s.in_use, s.waiting, s.available), (12, 0, 0, 12));
    let mut monitor = provider.concurrency_monitor();
    assert_eq!(monitor.set_per_account(2, 3), Ok((12, 6)));
    assert_eq!(provider.concurrency_snapshot().available, 6);

    let fixed = KiroProvider::new(
        config("0.8.0"),
        reqwest::Client::new(),
        3,
        None,
        Some("7"),
    );
    assert!(fixed.concurrency.is_absolute_lock());
    assert_eq!(fixed.concurrency.max(), 7);
}

#[test]
fn calls_begin_with_their_routing() {
    let body = r#"{"conversationState":{"agentContinuationId":"c","currentMessage":{"userInputMessage":{"modelId":"m"}}}}"#;
    let provider = create_test_provider(config("0.8.0")).with_rpm_tracker();
    let planned = provider.call_api(body, 2);
    assert_eq!(planned.model, Some("m".to_string()));
    assert_eq!(planned.continuation_id, Some("c".to_string()));
    assert!(planned.call.kind == CallKind::Api { streaming: false });
    assert_eq!(planned.call.max_retries, 6);
    assert_eq!(planned.call.attempt, 0);
    assert!(planned.call.tracks_rpm);
    assert!(matches!(planned.call.stage, Stage::Attempting));
    assert!(matches!(planned.actions.as_slice(), [Action::Attempt]));

    let streamed = provider.call_api_stream(body, 1);
    assert!(streamed.call.kind == CallKind::Api { streaming: true });
    assert_eq!(streamed.call.max_retries, 3);

    let tool = provider.call_mcp(body, 100);
    assert!(tool.call.kind == CallKind::Mcp);
    assert_eq!(tool.model, None);
    assert_eq!(tool.continuation_id, Some("c".to_string()));
    assert_eq!(tool.call.max_retries, 9);
}

#[test]
fn requests_follow_their_kind() {
    let provider = create_test_provider(config("0.8.0"));
    let ctx = context();
    let api = CallKind::Api { streaming: true };
    assert_eq!(KiroProvider::request_url(api, &ctx), KiroProvider::base_url_for(&ctx));
    assert_eq!(
        KiroProvider::request_url(CallKind::Mcp, &ctx),
        "https://q.us-east-1.amazonaws.com/mcp"
    );
    let body = r#"{"conversationState":{"agentTaskType":"spectask"}}"#;
    let headers = provider.request_headers(api, &ctx, body).unwrap();
    assert_eq!(headers.get("x-amzn-kiro-agent-mode").unwrap(), "spectask");
    assert_eq!(headers.len(), 9);
    let headers = provider.request_headers(CallKind::Mcp, &ctx, body).unwrap();
    assert!(headers.get("x-amzn-kiro-agent-mode").is_none());
    assert_eq!(headers.len(), 7);
    let mut unknown = context();
    unknown.machine_id = None;
    assert_eq!(
        provider.request_headers(api, &unknown, body).unwrap_err(),
        HeaderError::MissingMachineId
    );
}

/// A client that names itself, so that clients can be told apart.
fn named(name: &str) -> reqwest::Client {
    reqwest::Client::builder().user_agent(name).build().unwrap()
}

#[test]
fn one_client_is_kept_for_each_proxy() {
    let proxy = Some("http://127.0.0.1:7890".to_string());
    let mut provider = KiroProvider::new(config("0.8.0"), named("first"), 1, None, None);
    let shown = |provider: &KiroProvider, proxy: &Option<String>| {
        provider.client_for(proxy).map(|client| format!("{:?}", client))
    };
    let first = shown(&provider, &None).unwrap();
    assert!(first.contains("first"));
    provider.keep_client(None, named("second"));
    assert_eq!(shown(&provider, &None), Some(first.clone()));
    provider.keep_client(proxy.clone(), named("third"));
    assert!(shown(&provider, &proxy).unwrap().contains("third"));
    provider.keep_client(proxy.clone(), named("fourth"));
    assert!(shown(&provider, &proxy).unwrap().contains("third"));
    assert_eq!(shown(&provider, &None), Some(first));
}

#[test]
fn a_cache_replaces_what_it_has_for_a_proxy() {
    let proxy = Some("http://127.0.0.1:7890".to_string());
    let mut cache = ClientCache::new();
    assert!(cache.get(&None).is_none());
    cache.insert(proxy.clone(), named("first"));
    cache.insert(None, named("second"));
    cache.insert(proxy.clone(), named("third"));
    assert!(format!("{:?}", cache.get(&proxy).unwrap()).contains("third"));
    assert!(format!("{:?}", cache.get(&None).unwrap()).contains("second"));
}

#[test]
fn handles_share_one_state() {
    let mut provider = KiroProvider::new(config("0.8.0"), reqwest::Client::new(), 2, None, None);
    assert_eq!(provider.concurrency_monitor().set_per_account(3, 2), Ok((10, 6)));
    assert_eq!(provider.concurrency_monitor().per_account(), 3);
    assert!(provider.concurrency.try_acquire());
    assert_eq!(provider.concurrency_monitor().snapshot().available, 5);
    assert_eq!(provider.concurrency_monitor().recompute_for_accounts(1), (6, 3));
    assert_eq!(provider.concurrency_snapshot().available, 2);
    let s = provider.concurrency_monitor().snapshot();
    assert_eq!((s.max, s.in_use, s.waiting, s.available), (3, 1, 0, 2));
}

#[test]
fn tracking_can_be_turned_on() {
    let mut provider = create_test_provider(config("0.8.0"));
    assert!(!provider.call_mcp("{}", 1).call.tracks_rpm);
    provider.track_rpm();
    assert!(provider.call_mcp("{}", 1).call.tracks_rpm);
}
