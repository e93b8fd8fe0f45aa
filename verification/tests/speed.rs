use chmlfrp_toolbox_daemon::commands::e2e_server::{serve_line, LineAction};
use chmlfrp_toolbox_daemon::commands::speedtest::{
    begin_download, plan, Direction, LoadNext, LoadOutcome, Loading, SpeedtestParams,
};
use chmlfrp_toolbox_daemon::commands::tcp_speed_test::{
    handle, parse_params, speed_request_line, AfterRead, BeforeRead, ReadOutcome,
    TcpSpeedTestParams, Transfer, FIRST_PACKET_TIMEOUT,
};
use chmlfrp_toolbox_daemon::commands::tunnel_latency_test::{
    calculate_latency_stats, handle as handle_latency, AnswerRead, LatencyRun, NextProbe, ProbeFate,
    TunnelLatencyParams,
};
use chmlfrp_toolbox_daemon::commands::{CommandContext, RunRegistry};
use std::time::Duration;

fn context() -> CommandContext {
    CommandContext {
        device_id: String::new(),
        data_dir: String::new(),
        config_path: String::new(),
        proxy_token: String::new(),
        account_id: "0".to_string(),
        backend_url: String::new(),
        user_id: None,
        request_id: String::new(),
    }
}

fn transfer_params(host: &str, port: u16, seconds: u64) -> TcpSpeedTestParams {
    TcpSpeedTestParams {
        host: host.to_string(),
        port,
        duration_seconds: seconds,
        connect_timeout_secs: 10,
        read_timeout_secs: 60,
        run_id: "run".to_string(),
    }
}

#[test]
fn parses_duration_parameter() {
    let duration = parse_params(Ok(transfer_params("127.0.0.1", 1, 15))).unwrap();
    assert_eq!(duration.duration_seconds, 15);
}

#[test]
fn rejects_duration_outside_limits() {
    assert!(parse_params(Ok(transfer_params("127.0.0.1", 1, 4))).is_err());
    assert!(parse_params(Ok(transfer_params("127.0.0.1", 1, 121))).is_err());
}

#[test]
fn accepts_the_limits_of_duration() {
    assert!(parse_params(Ok(transfer_params("h", 1, 5))).is_ok());
    assert!(parse_params(Ok(transfer_params("h", 1, 120))).is_ok());
    assert_eq!(
        parse_params(Ok(transfer_params("h", 1, 0))).unwrap_err(),
        "durationSeconds 必须在 5 到 120 之间"
    );
    assert_eq!(parse_params(Err("e".to_string())).unwrap_err(), "参数解析失败: e");
}

#[test]
fn transfer_requests_are_checked() {
    let mut registry = RunRegistry::new();
    let message = |r: &mut RunRegistry, p: TcpSpeedTestParams| {
        let e = handle(r, Ok(p), &context()).unwrap_err();
        assert_eq!(e.code, "INVALID_PARAMS");
        e.message
    };
    assert_eq!(message(&mut registry, transfer_params("", 1, 15)), "host 不能为空");
    assert_eq!(message(&mut registry, transfer_params("h", 0, 15)), "port 不能为 0");
    assert_eq!(message(&mut registry, transfer_params("", 0, 3)), "durationSeconds 必须在 5 到 120 之间");
    assert_eq!(registry.entries.len(), 0);
    let (p, generation) = handle(&mut registry, Ok(transfer_params("h", 1, 15)), &context()).unwrap();
    assert_eq!(p.host, "h");
    assert!(!registry.is_cancelled("0:run", generation));
}

#[test]
fn first_packet_timeout_is_three_seconds() {
    assert_eq!(Duration::from_nanos(FIRST_PACKET_TIMEOUT), Duration::from_secs(3));
}

#[test]
fn sender_grants_what_the_receiver_asks_for() {
    for seconds in 5..=120u64 {
        let line = speed_request_line(seconds * 1_000_000_000);
        assert!(matches!(serve_line(&line), LineAction::Send(ms) if ms == seconds * 1000));
    }
    assert_eq!(speed_request_line(15_000_000_000), "SPEEDTEST_TIME 15000\n");
}

const MS: u64 = 1_000_000;

#[test]
fn transfer_stops_at_its_deadline_while_data_keeps_coming() {
    let mut transfer = Transfer::new(150 * MS);
    let mut now = 0;
    let mut reads = 0;
    loop {
        match transfer.before_read(now, false) {
            BeforeRead::Read => {}
            BeforeRead::Complete => break,
            BeforeRead::Fail(e) => panic!("{}", e),
        }
        now += 10 * MS;
        reads += 1;
        assert!(matches!(transfer.after_read(ReadOutcome::Bytes(65536), now), AfterRead::GoOn(_)));
    }
    assert_eq!(reads, 16);
    let result = transfer.finish(now);
    assert!(result.success);
    assert_eq!(result.total_bytes, 16 * 65536);
    assert_eq!(result.duration_ns, 150 * MS);
    assert!(result.error.is_none());
}

#[test]
fn transfer_samples_hold_every_byte() {
    let mut transfer = Transfer::new(5000 * MS);
    let mut now = 100 * MS;
    let mut reports = 0;
    for _ in 0..30 {
        if let AfterRead::GoOn(Some(p)) = transfer.after_read(ReadOutcome::Bytes(1000), now) {
            reports += 1;
            assert_eq!(p.elapsed_ns, now - 100 * MS);
        }
        now += 100 * MS;
    }
    assert_eq!(reports, 14);
    let result = transfer.finish(5100 * MS);
    assert_eq!(result.samples.len(), 3);
    assert_eq!(result.samples[0].second, 1);
    assert_eq!(result.samples[0].bytes, 11000);
    assert_eq!(result.samples[0].duration_ns, 1000 * MS);
    assert_eq!(result.samples[1].bytes, 10000);
    assert_eq!(result.samples[2].bytes, 9000);
    assert_eq!(result.samples.iter().map(|s| s.bytes).sum::<u64>(), result.total_bytes);
}

#[test]
fn transfer_without_data_fails() {
    let mut transfer = Transfer::new(5000 * MS);
    assert!(matches!(transfer.before_read(2999 * MS, false), BeforeRead::Read));
    assert!(matches!(transfer.after_read(ReadOutcome::NotYet, 2999 * MS), AfterRead::GoOn(None)));
    assert!(matches!(
        transfer.before_read(3000 * MS, false),
        BeforeRead::Fail(e) if e == "测速连接未返回数据"
    ));
    assert!(matches!(
        transfer.before_read(0, true),
        BeforeRead::Fail(e) if e == "测速已强制停止"
    ));
    assert!(matches!(
        transfer.after_read(ReadOutcome::Bytes(0), 1),
        AfterRead::Fail(e) if e == "测速连接未返回数据"
    ));
    assert!(matches!(
        transfer.after_read(ReadOutcome::Failed("x".to_string()), 1),
        AfterRead::Fail(e) if e == "测速连接未返回数据"
    ));
}

#[test]
fn transfer_that_ends_early_is_no_success() {
    let mut transfer = Transfer::new(5000 * MS);
    transfer.after_read(ReadOutcome::Bytes(10), 0);
    assert!(matches!(transfer.after_read(ReadOutcome::Bytes(0), 4749 * MS), AfterRead::Complete));
    let result = transfer.finish(4749 * MS);
    assert!(!result.success);
    assert_eq!(result.samples.len(), 1);
    assert_eq!(result.error.unwrap(), "测速连接在目标时长前结束");
    let mut transfer = Transfer::new(5000 * MS);
    transfer.after_read(ReadOutcome::Bytes(10), 0);
    let result = transfer.finish(4750 * MS);
    assert!(result.success);
    let mut transfer = Transfer::new(5000 * MS);
    transfer.after_read(ReadOutcome::Bytes(10), 0);
    assert!(matches!(
        transfer.after_read(ReadOutcome::Failed("reset".to_string()), 1),
        AfterRead::Fail(e) if e == "读取数据失败: reset"
    ));
}

#[test]
fn calculates_full_tunnel_latency_stats() {
    let ms = 1_000_000u64;
    let result =
        calculate_latency_stats(&vec![Some(10 * ms), Some(14 * ms), None, Some(12 * ms)]).unwrap();
    assert_eq!(result.sum_ns as f64 / result.received as f64 / 1e6, 12.0);
    assert_eq!(result.jitter_sum_ns as f64 / (result.received - 1) as f64 / 1e6, 3.0);
    assert_eq!((result.sent - result.received) as f64 / result.sent as f64 * 100.0, 25.0);
    assert_eq!(result.received, 3);
}

#[test]
fn rejects_all_lost_probes() {
    assert!(calculate_latency_stats(&vec![None, None]).is_err());
}

#[test]
fn single_probe_has_no_jitter() {
    let result = calculate_latency_stats(&vec![Some(7)]).unwrap();
    assert_eq!((result.sum_ns, result.jitter_sum_ns), (7, 0));
    let result = calculate_latency_stats(&vec![Some(u64::MAX), Some(0), Some(u64::MAX)]).unwrap();
    assert_eq!(result.sum_ns, 2 * u64::MAX as u128);
    assert_eq!(result.jitter_sum_ns, 2 * u64::MAX as u128);
    assert_eq!(calculate_latency_stats(&Vec::new()).unwrap_err(), "全链路探测全部超时");
}

#[test]
fn average_lies_between_the_extremes() {
    let result = calculate_latency_stats(&vec![Some(3), Some(9), Some(6)]).unwrap();
    assert_eq!(result.sum_ns, 18);
    assert!(3 * 3 <= result.sum_ns && result.sum_ns <= 9 * 3);
}

fn latency_params(host: &str, port: u16, count: usize, timeout_ms: u64) -> TunnelLatencyParams {
    TunnelLatencyParams {
        host: host.to_string(),
        port,
        count,
        timeout_ms,
        run_id: "run".to_string(),
    }
}

#[test]
fn latency_requests_are_checked() {
    let mut registry = RunRegistry::new();
    for p in [latency_params("", 1, 4, 3000), latency_params("h", 0, 4, 3000)] {
        let e = handle_latency(&mut registry, Ok(p), &context()).unwrap_err();
        assert_eq!((e.code.as_str(), e.message.as_str()), ("INVALID_PARAMS", "host 和 port 必须有效"));
    }
    let e = handle_latency(&mut registry, Err("e".to_string()), &context()).unwrap_err();
    assert_eq!(e.message, "参数解析失败: e");
    assert!(handle_latency(&mut registry, Ok(latency_params("h", 1, 4, 3000)), &context()).is_ok());
}

#[test]
fn latency_limits_are_kept() {
    let run = LatencyRun::new(&latency_params("h", 1, 0, 1));
    assert_eq!((run.count, run.timeout_ns), (1, 100 * MS));
    let run = LatencyRun::new(&latency_params("h", 1, 100, 100_000));
    assert_eq!((run.count, run.timeout_ns), (20, 30_000 * MS));
}

#[test]
fn latency_probes_are_counted() {
    let mut run = LatencyRun::new(&latency_params("h", 1, 3, 1000));
    assert!(matches!(run.next_probe(false), NextProbe::Send(l) if l == "PING 0\n"));
    assert_eq!(run.on_read(AnswerRead::NotYet, 999 * MS), ProbeFate::Pending);
    assert_eq!(run.on_read(AnswerRead::Line("PONG 0\n".to_string()), 999 * MS), ProbeFate::Answered);
    assert!(matches!(run.next_probe(false), NextProbe::Send(l) if l == "PING 1\n"));
    assert_eq!(run.on_read(AnswerRead::Line("PONG 0\n".to_string()), 1), ProbeFate::Lost);
    assert!(matches!(run.next_probe(true), NextProbe::Fail(e) if e == "测速已强制停止"));
    run.send_failed();
    assert!(matches!(run.next_probe(true), NextProbe::Done));
    assert_eq!(run.samples, vec![Some(999 * MS), None, None]);
    assert!(run.before_read(false).is_ok());
    assert_eq!(run.before_read(true).unwrap_err(), "测速已强制停止");
    let mut run = LatencyRun::new(&latency_params("h", 1, 2, 1000));
    assert_eq!(run.on_read(AnswerRead::NotYet, 1000 * MS), ProbeFate::Lost);
    assert_eq!(run.on_read(AnswerRead::Failed, 0), ProbeFate::Lost);
}

fn http_params(direction: &str, seconds: u32) -> SpeedtestParams {
    SpeedtestParams {
        url: "u".to_string(),
        direction: direction.to_string(),
        duration_secs: seconds,
        threads: 4,
    }
}

#[test]
fn http_tests_are_planned() {
    let p = plan(&http_params("download", 10));
    assert_eq!(p.direction, Ok(Direction::Download));
    assert_eq!((p.duration_secs, p.cancel_after_secs, p.request_timeout_secs), (10, 20, 25));
    assert_eq!(plan(&http_params("both", 10)).direction, Ok(Direction::Download));
    let p = plan(&http_params("upload", 600));
    assert_eq!(p.direction, Ok(Direction::Upload));
    assert_eq!(p.duration_secs, 60);
    assert_eq!(
        plan(&http_params("sideways", 1)).direction,
        Err("不支持的方向: sideways（可选 download/upload/both）".to_string())
    );
}

#[test]
fn http_tests_add_up() {
    let mut loading = Loading::new(1);
    assert!(loading.goes_on(999 * MS, false));
    assert!(!loading.goes_on(1000 * MS, false));
    assert!(!loading.goes_on(0, true));
    assert!(matches!(loading.advance(LoadOutcome::Received(5), 100 * MS), LoadNext::GoOn(false)));
    assert!(matches!(
        loading.advance(LoadOutcome::Sent(7, 204, "s".to_string()), 200 * MS),
        LoadNext::GoOn(true)
    ));
    assert!(matches!(loading.advance(LoadOutcome::Received(1), 399 * MS), LoadNext::GoOn(false)));
    assert!(matches!(
        loading.advance(LoadOutcome::Sent(7, 500, "500 Internal Server Error".to_string()), 1),
        LoadNext::Fail(e) if e == "HTTP 500 Internal Server Error"
    ));
    assert!(matches!(loading.advance(LoadOutcome::Ended, 1), LoadNext::Complete));
    assert_eq!(loading.total_bytes, 13);
    assert!(begin_download(200, "200 OK").is_ok());
    assert_eq!(begin_download(404, "404 Not Found").unwrap_err(), "HTTP 404 Not Found");
}
