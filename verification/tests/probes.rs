use chmlfrp_toolbox_daemon::commands::dns_failover_probe::{
    connect_result, handle, parse_params, plan_method, probe_answer, state_result, tunnel_answer,
    unsupported_result, MethodOutcome, MethodPlan, MethodResults, ProbeParams, ProbeTunnel,
};
use chmlfrp_toolbox_daemon::commands::ping::{ping_args, read_replies, reads_as_time, run_ping};
use chmlfrp_toolbox_daemon::commands::tcping::Tally;

fn probe_params(id: &str) -> ProbeParams {
    ProbeParams {
        execution_id: id.to_string(),
        methods: vec!["tcping".to_string()],
        tunnels: Vec::new(),
        timeout_ms: 15_000,
    }
}

#[test]
fn rejects_empty_execution_id() {
    assert!(parse_params(Ok(probe_params(""))).is_err());
}

#[test]
fn probe_requests_are_checked() {
    let e = parse_params(Ok(probe_params(" \t"))).unwrap_err();
    assert_eq!((e.code.as_str(), e.message.as_str()), ("INVALID_PARAMS", "executionId 不能为空"));
    let e = parse_params(Err("e".to_string())).unwrap_err();
    assert_eq!(e.message, "参数解析失败: e");
    assert_eq!(parse_params(Ok(probe_params("x"))).unwrap().execution_id, "x");
}

#[test]
fn missing_remote_state_is_unavailable() {
    let result = state_result(None, 1);
    assert!(!result.passed);
    assert_eq!(result.error_code.as_deref(), Some("UNAVAILABLE"));
}

#[test]
fn supplied_remote_state_is_preserved() {
    let result = state_result(Some(true), 1);
    assert!(result.passed);
    assert_eq!(result.error_code, None);
}

#[test]
fn bad_state_does_not_pass() {
    let result = state_result(Some(false), 1);
    assert!(!result.passed);
    assert_eq!(result.error_code, None);
}

fn tunnel() -> ProbeTunnel {
    ProbeTunnel {
        id: "t1".to_string(),
        node_host: "h".to_string(),
        node_port: 7000,
        tunnel_state: Some(true),
        node_state: None,
    }
}

#[test]
fn methods_are_planned() {
    assert!(matches!(plan_method("tunnel_state", &tunnel(), 1), MethodPlan::State(Some(true))));
    assert!(matches!(plan_method("node_state", &tunnel(), 1), MethodPlan::State(None)));
    assert!(matches!(plan_method("magic", &tunnel(), 1), MethodPlan::Unsupported));
    for (ms, secs) in [(0, 1), (1, 1), (1000, 1), (1001, 2), (15_000, 15), (u64::MAX, 18446744073709552)] {
        match plan_method("tcping", &tunnel(), ms) {
            MethodPlan::Connect(host, port, timeout) => {
                assert_eq!((host.as_str(), port, timeout), ("h", 7000, secs));
            }
            _ => panic!("no connection"),
        }
    }
}

#[test]
fn connections_are_judged() {
    assert!(connect_result(Some(0), 3).passed);
    assert_eq!(connect_result(Some(1), 3).error_code.as_deref(), Some("TIMEOUT"));
    assert_eq!(connect_result(None, 3).error_code.as_deref(), Some("EXEC_FAILED"));
    let result = unsupported_result();
    assert_eq!((result.passed, result.duration_ms), (false, 0));
    assert_eq!(result.error_code.as_deref(), Some("UNSUPPORTED_METHOD"));
}

#[test]
fn last_result_of_a_method_counts() {
    let mut results = MethodResults::new();
    results.put("a", state_result(None, 1));
    results.put("b", state_result(Some(true), 2));
    results.put("a", state_result(Some(true), 3));
    let answer = tunnel_answer("t1", &results);
    assert_eq!(answer.text("tunnelId"), Some("t1"));
    let methods = answer.get("methods").unwrap();
    let a = methods.get("a").unwrap();
    assert_eq!(a.flag("passed"), Some(true));
    assert_eq!(a.unsigned("durationMs"), Some(3));
    assert_eq!(methods.get("b").unwrap().unsigned("durationMs"), Some(2));
    let all = probe_answer("x", vec![answer]);
    assert_eq!(all.text("executionId"), Some("x"));
    assert_eq!(all.get("results").unwrap().items().unwrap().len(), 1);
}

#[test]
fn probes_are_answered_tunnel_by_tunnel() {
    let mut second = tunnel();
    second.id = "t2".to_string();
    second.tunnel_state = None;
    let params = ProbeParams {
        execution_id: "x".to_string(),
        methods: vec!["tunnel_state".to_string(), "tcping".to_string(), "magic".to_string()],
        tunnels: vec![tunnel(), second],
        timeout_ms: 1000,
    };
    let outcome = |loss, duration_ms| MethodOutcome { loss, duration_ms };
    let outcomes = vec![
        vec![outcome(None, 1), outcome(Some(0), 20), outcome(None, 3)],
        vec![outcome(None, 1), outcome(Some(1), 30), outcome(None, 3)],
    ];
    let answer = handle(&params, &outcomes);
    assert_eq!(answer.text("executionId"), Some("x"));
    let results = answer.get("results").unwrap().items().unwrap();
    assert_eq!(results.len(), 2);
    assert_eq!(results[0].text("tunnelId"), Some("t1"));
    let first = results[0].get("methods").unwrap();
    assert_eq!(first.get("tunnel_state").unwrap().flag("passed"), Some(true));
    assert_eq!(first.get("tcping").unwrap().flag("passed"), Some(true));
    assert_eq!(first.get("tcping").unwrap().unsigned("durationMs"), Some(20));
    assert_eq!(first.get("magic").unwrap().text("errorCode"), Some("UNSUPPORTED_METHOD"));
    let other = results[1].get("methods").unwrap();
    assert_eq!(other.get("tunnel_state").unwrap().text("errorCode"), Some("UNAVAILABLE"));
    assert_eq!(other.get("tcping").unwrap().text("errorCode"), Some("TIMEOUT"));
}

#[test]
fn ping_output_is_read() {
    let printed = "64 bytes from 1.1.1.1: icmp_seq=1 ttl=57 time=35.2 ms\n\
                   64 bytes from 1.1.1.1: icmp_seq=2 ttl=57 time<1 ms\n\
                   64 bytes from 1.1.1.1: icmp_seq=3 ttl=57 time=7ms\n\
                   rtt min/avg/max/mdev = 1/2/3/4 ms\n";
    let replies = run_ping(Some(printed), 4);
    assert_eq!(replies.times, vec!["35.2".to_string(), "1".to_string(), "7".to_string()]);
    assert_eq!(replies.loss, 1);
}

#[test]
fn ping_that_cannot_run_loses_everything() {
    let replies = run_ping(None, 4);
    assert!(replies.times.is_empty());
    assert_eq!(replies.loss, 4);
    assert_eq!(run_ping(Some("time=1 ms time=2 ms"), 1).loss, 0);
}

#[test]
fn ping_times_are_plain_numbers() {
    assert!(reads_as_time("35.2"));
    assert!(reads_as_time("0"));
    for bad in ["", ".5", "5.", "1.2.3", "-1", "٣", "1e3"] {
        assert!(!reads_as_time(bad));
    }
    let groups = vec![Some("1.5".to_string()), None, Some("٣".to_string())];
    let replies = read_replies(groups, 3);
    assert_eq!(replies.times, vec!["1.5".to_string()]);
    assert_eq!(replies.loss, 2);
}

#[test]
fn ping_is_called_with_limits() {
    assert_eq!(
        ping_args("example.com", 4),
        vec!["-c", "4", "-W", "3", "example.com"].into_iter().map(String::from).collect::<Vec<_>>()
    );
}

#[test]
fn connections_are_counted() {
    let mut tally = Tally::new(3);
    assert_eq!(tally.average(), None);
    tally.record(Some(10));
    tally.record(None);
    assert!(tally.is_open());
    tally.record(Some(20));
    assert!(!tally.is_open());
    assert_eq!(tally.average(), Some((30, 2)));
    assert_eq!(tally.loss, 1);
    assert!(!Tally::new(0).is_open());
}
