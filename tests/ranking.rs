use jito_speedtest::{
    get_mainnet_endpoints, print_results, probe_outcome, render_entry, render_report,
    sort_results, ProbeReply, TestResult,
};

fn ok(name: &str, nanos: u128) -> TestResult {
    TestResult::new(name.to_string(), format!("https://{}.example", name)).with_success(nanos)
}

fn failed(name: &str, error: &str) -> TestResult {
    TestResult::new(name.to_string(), format!("https://{}.example", name))
        .with_error(error.to_string())
}

fn header() -> String {
    format!("🚀 网络速度测试结果\n{}\n", "=".repeat(60))
}

fn names(r: &[TestResult]) -> Vec<String> {
    r.iter().map(|x| x.name.clone()).collect()
}

#[test]
fn all_mainnet_succeed_in_ascending_latency() {
    // Registry order gets latencies 400ms, 350ms, ..., 50ms plus sub-millisecond parts.
    let endpoints = get_mainnet_endpoints();
    let mut outcomes = Vec::new();
    for (i, e) in endpoints.iter().enumerate() {
        let ms = 400 - 50 * i as u128;
        let reply = ProbeReply::Status { code: 200, elapsed_nanos: ms * 1_000_000 + 999_999 };
        outcomes.push(probe_outcome(e, reply));
    }
    let sorted = sort_results(outcomes);
    let times: Vec<u128> = sorted.iter().map(|r| r.response_time.unwrap()).collect();
    let mut expected = times.clone();
    expected.sort();
    assert_eq!(times, expected);
    assert_eq!(sorted[0].name, "🇸🇬 Singapore");
    assert_eq!(sorted[7].name, "🇯🇵 Tokyo");
    let text = render_report(&sorted);
    assert!(text.starts_with(&header()));
    assert!(text.contains("#1 🟢 🇸🇬 Singapore - 50ms\n"));
    assert!(text.contains("#8 🟢 🇯🇵 Tokyo - 400ms\n"));
    assert!(!text.contains("51ms"));
}

#[test]
fn timed_out_endpoint_follows_every_success() {
    let outcomes = vec![
        failed("Amsterdam", "error sending request: operation timed out"),
        ok("Tokyo", 30_000_000),
        ok("London", 20_000_000),
        ok("Frankfurt", 25_000_000),
    ];
    let sorted = sort_results(outcomes);
    assert_eq!(names(&sorted), vec!["London", "Frankfurt", "Tokyo", "Amsterdam"]);
    assert!(sorted[3].error.as_deref().unwrap().contains("timed out"));
    assert!(sorted[..3].iter().all(|r| r.response_time.is_some()));
}

#[test]
fn failures_are_ordered_by_name_not_error_or_arrival() {
    let outcomes = vec![
        failed("Zurich", "HTTP 500"),
        failed("Berlin", "dns error"),
    ];
    let sorted = sort_results(outcomes);
    assert_eq!(names(&sorted), vec!["Berlin", "Zurich"]);
    let outcomes = vec![failed("Berlin", "zzz"), failed("Zurich", "aaa")];
    assert_eq!(names(&sort_results(outcomes)), vec!["Berlin", "Zurich"]);
}

#[test]
fn successes_rank_before_failures_whatever_the_input_order() {
    let outcomes = vec![
        failed("A", "x"),
        ok("Z", 900_000_000),
        failed("B", "y"),
        ok("Y", 1),
    ];
    let sorted = sort_results(outcomes);
    assert_eq!(names(&sorted), vec!["Y", "Z", "A", "B"]);
}

#[test]
fn equal_keys_keep_their_input_order() {
    let outcomes = vec![ok("b", 5), ok("a", 5), failed("same", "1"), failed("same", "2")];
    let sorted = sort_results(outcomes);
    assert_eq!(names(&sorted), vec!["b", "a", "same", "same"]);
    assert_eq!(sorted[2].error.as_deref(), Some("1"));
    assert_eq!(sorted[3].error.as_deref(), Some("2"));
}

#[test]
fn sorting_nothing_gives_nothing() {
    assert!(sort_results(Vec::new()).is_empty());
    assert_eq!(render_report(&Vec::new()), header());
}

#[test]
fn entry_lines() {
    assert_eq!(
        render_entry(1, &ok("Tokyo", 50_999_999)),
        "#1 🟢 Tokyo - 50ms\n    URL: https://Tokyo.example\n\n"
    );
    assert_eq!(
        render_entry(12, &failed("London", "HTTP 503")),
        "#12 🔴 London - 失败\n    URL: https://London.example\n    错误: HTTP 503\n\n"
    );
    assert_eq!(
        render_entry(3, &TestResult::new("N".to_string(), "U".to_string())),
        "#3 🔴 N - 失败\n    URL: U\n\n"
    );
    assert_eq!(render_entry(1, &ok("Fast", 999_999)), "#1 🟢 Fast - 0ms\n    URL: https://Fast.example\n\n");
}

#[test]
fn whole_report() {
    let text = print_results(vec![failed("B", "HTTP 503"), ok("A", 120_500_000)]);
    let expected = format!(
        "{}#1 🟢 A - 120ms\n    URL: https://A.example\n\n#2 🔴 B - 失败\n    URL: https://B.example\n    错误: HTTP 503\n\n",
        header()
    );
    assert_eq!(text, expected);
}

#[test]
fn rendering_twice_gives_the_same_text() {
    let sorted = sort_results(vec![ok("A", 3_000_000), failed("B", "e")]);
    assert_eq!(render_report(&sorted), render_report(&sorted));
}
