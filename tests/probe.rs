use jito_speedtest::{
    collect_outcomes, decimal_string, probe_body, probe_outcome, probe_url, rpc_request_body,
    status_error, str_less, Endpoint, ProbeReply, TestResult, PROBE_TIMEOUT_SECS,
};

fn tokyo() -> Endpoint {
    Endpoint {
        name: "🇯🇵 Tokyo".to_string(),
        url: "https://tokyo.mainnet.block-engine.jito.wtf".to_string(),
    }
}

#[test]
fn request_target_and_body() {
    assert_eq!(
        probe_url(&tokyo()),
        "https://tokyo.mainnet.block-engine.jito.wtf/api/v1/getTipAccounts"
    );
    assert_eq!(
        probe_body(),
        r#"{"jsonrpc":"2.0","id":1,"method":"getTipAccounts","params":[]}"#
    );
    assert_eq!(PROBE_TIMEOUT_SECS, 10);
}

#[test]
fn request_body_escapes_method_name() {
    assert_eq!(
        rpc_request_body("a\"b"),
        r#"{"jsonrpc":"2.0","id":1,"method":"a\"b","params":[]}"#
    );
}

#[test]
fn success_status_gives_latency() {
    let r = probe_outcome(&tokyo(), ProbeReply::Status { code: 200, elapsed_nanos: 123_456_789 });
    assert_eq!(r.name, "🇯🇵 Tokyo");
    assert_eq!(r.url, "https://tokyo.mainnet.block-engine.jito.wtf");
    assert_eq!(r.response_time, Some(123_456_789));
    assert_eq!(r.error, None);
    let r = probe_outcome(&tokyo(), ProbeReply::Status { code: 299, elapsed_nanos: 5 });
    assert_eq!(r.response_time, Some(5));
}

#[test]
fn http_503_gives_status_error() {
    let r = probe_outcome(&tokyo(), ProbeReply::Status { code: 503, elapsed_nanos: 42 });
    assert_eq!(r.error.as_deref(), Some("HTTP 503"));
    assert_eq!(r.response_time, None);
}

#[test]
fn statuses_outside_2xx_are_errors() {
    for (code, text) in [(199u16, "HTTP 199"), (300, "HTTP 300"), (404, "HTTP 404"), (0, "HTTP 0")] {
        let r = probe_outcome(&tokyo(), ProbeReply::Status { code, elapsed_nanos: 1 });
        assert_eq!(r.error.as_deref(), Some(text));
        assert_eq!(r.response_time, None);
    }
    assert_eq!(status_error(65535), "HTTP 65535");
}

#[test]
fn transport_failure_keeps_its_description() {
    let msg = "error sending request: operation timed out".to_string();
    let r = probe_outcome(&tokyo(), ProbeReply::Transport { message: msg.clone() });
    assert_eq!(r.error, Some(msg));
    assert_eq!(r.response_time, None);
}

#[test]
fn every_outcome_holds_exactly_one_of_latency_and_error() {
    let replies = vec![
        ProbeReply::Status { code: 200, elapsed_nanos: 1 },
        ProbeReply::Status { code: 500, elapsed_nanos: 1 },
        ProbeReply::Transport { message: String::new() },
    ];
    for reply in replies {
        let r = probe_outcome(&tokyo(), reply);
        assert!(r.response_time.is_some() != r.error.is_some());
    }
}

#[test]
fn builder_attaches_one_field() {
    let r = TestResult::new("n".to_string(), "u".to_string());
    assert_eq!(r.response_time, None);
    assert_eq!(r.error, None);
    let s = TestResult::new("n".to_string(), "u".to_string()).with_success(7);
    assert_eq!(s.response_time, Some(7));
    assert_eq!(s.error, None);
    let e = TestResult::new("n".to_string(), "u".to_string()).with_error("x".to_string());
    assert_eq!(e.error.as_deref(), Some("x"));
    assert_eq!(e.response_time, None);
    assert_eq!(e.name, "n");
    assert_eq!(e.url, "u");
}

#[test]
fn failed_tasks_are_left_out() {
    let a = TestResult::new("a".to_string(), "u".to_string()).with_success(1);
    let c = TestResult::new("c".to_string(), "u".to_string()).with_error("x".to_string());
    let r = collect_outcomes(vec![Some(a), None, Some(c), None]);
    assert_eq!(r.len(), 2);
    assert_eq!(r[0].name, "a");
    assert_eq!(r[1].name, "c");
    assert!(collect_outcomes(Vec::new()).is_empty());
}

#[test]
fn decimal_rendering() {
    assert_eq!(decimal_string(0), "0");
    assert_eq!(decimal_string(9), "9");
    assert_eq!(decimal_string(10), "10");
    assert_eq!(decimal_string(400), "400");
    assert_eq!(decimal_string(u128::MAX), u128::MAX.to_string());
}

#[test]
fn name_order_is_lexicographic() {
    assert!(str_less("", "a"));
    assert!(!str_less("a", ""));
    assert!(!str_less("", ""));
    assert!(str_less("ab", "abc"));
    assert!(str_less("abc", "abd"));
    assert!(!str_less("abd", "abc"));
    assert!(!str_less("🇺🇸 Dallas", "🇺🇸 Dallas"));
    assert!(str_less("🇺🇸 Dallas (Testnet)", "🇺🇸 New York (Testnet)"));
    assert!(str_less("Z", "a"));
    assert!(str_less("🌍 Testnet", "🇺🇸 Dallas (Testnet)") == ("🌍 Testnet" < "🇺🇸 Dallas (Testnet)"));
}
