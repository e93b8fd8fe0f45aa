use chmlfrp_toolbox_daemon::commands::e2e_server::{
    address, claim_run, complete_run, finish_cleanup, handle_cleanup, handle_setup, keeps_sending,
    parse_speed_request, probe_line, probe_sequence, probe_verdict, serve_line,
    validate_probe_response, CleanupStart, E2eSetupParams, LineAction, ProbeRead,
    ResourceCoordinator, Resources, Setup, SetupAction, SetupEvent, SetupStage, SpeedServer, WriteOutcome,
};
use chmlfrp_toolbox_daemon::commands::temp_tunnel::TempTunnel;
use chmlfrp_toolbox_daemon::commands::{cancel_run, CommandContext, RunRegistry};
use chmlfrp_toolbox_daemon::json::Json;
use std::time::Duration;

fn context(account: &str, token: &str) -> CommandContext {
    CommandContext {
        device_id: "device".to_string(),
        data_dir: "/data".to_string(),
        config_path: "/etc/c.toml".to_string(),
        proxy_token: token.to_string(),
        account_id: account.to_string(),
        backend_url: "wss://backend".to_string(),
        user_id: None,
        request_id: "r".to_string(),
    }
}

fn params(run: &str) -> E2eSetupParams {
    E2eSetupParams { node_name: "node1".to_string(), run_id: run.to_string() }
}

fn tunnel() -> TempTunnel {
    TempTunnel {
        tunnel_id: 42,
        node_ip: "1.2.3.4".to_string(),
        remote_port: 31000,
        node_token: "nt".to_string(),
        server_port: 7000,
        tunnel_name: "e2etest_1".to_string(),
    }
}

#[test]
fn parses_time_speed_request() {
    assert_eq!(
        Duration::from_millis(parse_speed_request("SPEEDTEST_TIME 15000\n").unwrap()),
        Duration::from_secs(15)
    );
}

#[test]
fn rejects_time_request_outside_limits() {
    assert!(parse_speed_request("SPEEDTEST_TIME 4000\n").is_err());
    assert!(parse_speed_request("SPEEDTEST_TIME 121000\n").is_err());
}

#[test]
fn names_what_is_wrong_with_a_speed_request() {
    assert_eq!(parse_speed_request("SPEEDTEST_TIME 5000").unwrap(), 5000);
    assert_eq!(parse_speed_request("SPEEDTEST_TIME 120000").unwrap(), 120000);
    assert_eq!(
        parse_speed_request("SPEEDTEST_TIME 4999").unwrap_err(),
        "测速时长必须在 5000 到 120000 毫秒之间"
    );
    assert_eq!(parse_speed_request("SPEEDTEST_TIME soon").unwrap_err(), "无效的测速时长");
    assert_eq!(parse_speed_request("SPEEDTEST_TIME 5000 x").unwrap_err(), "不支持的测速命令");
    assert_eq!(parse_speed_request("").unwrap_err(), "不支持的测速命令");
}

#[test]
fn speed_server_answers_lines() {
    assert!(matches!(serve_line("PING 7\n"), LineAction::Reply(s) if s == "PONG 7\n"));
    assert!(matches!(serve_line("PING \n"), LineAction::Reply(s) if s == "PONG 0\n"));
    assert!(matches!(serve_line("SPEEDTEST_TIME 15000\n"), LineAction::Send(15000)));
    assert!(matches!(serve_line("SPEEDTEST_TIME 1\n"), LineAction::Refuse(_)));
    assert!(matches!(serve_line("HELLO\n"), LineAction::Ignore));
}

#[test]
fn probe_and_answer_fit_together() {
    let line = probe_line("ready-1");
    assert_eq!(line, "PING ready-1\n");
    match serve_line(&line) {
        LineAction::Reply(answer) => {
            assert!(validate_probe_response(&answer, "ready-1"));
            assert!(!validate_probe_response(&answer, "ready-2"));
        }
        _ => panic!("no answer"),
    }
}

#[test]
fn probe_sequences_are_fresh() {
    let a = probe_sequence();
    let b = probe_sequence();
    assert!(a.starts_with("ready-"));
    assert_eq!(a.len(), 42);
    assert_ne!(a, b);
}

#[test]
fn probe_response_requires_matching_sequence() {
    assert!(validate_probe_response("PONG ready-123\n", "ready-123"));
    assert!(!validate_probe_response("PONG other\n", "ready-123"));
    assert!(!validate_probe_response("HTTP/1.1 200 OK\n", "ready-123"));
}

#[test]
fn probe_verdict_needs_the_very_answer() {
    assert_eq!(probe_verdict(ProbeRead::Line("PONG x\n".to_string()), "x"), Ok(true));
    assert_eq!(probe_verdict(ProbeRead::Line("PONG y\n".to_string()), "x"), Ok(false));
    assert_eq!(probe_verdict(ProbeRead::Line(String::new()), ""), Ok(false));
    assert_eq!(probe_verdict(ProbeRead::TimedOut, "x"), Ok(false));
    assert_eq!(
        probe_verdict(ProbeRead::Failed("reset".to_string()), "x"),
        Err("读取隧道探测失败: reset".to_string())
    );
}

#[test]
fn sending_stops_with_the_time_the_server_or_the_connection() {
    assert!(keeps_sending(WriteOutcome::Wrote(10), 10, 20, true));
    assert!(keeps_sending(WriteOutcome::NotYet, 10, 20, true));
    assert!(!keeps_sending(WriteOutcome::Wrote(0), 10, 20, true));
    assert!(!keeps_sending(WriteOutcome::Failed, 10, 20, true));
    assert!(!keeps_sending(WriteOutcome::Wrote(10), 20, 20, true));
    assert!(!keeps_sending(WriteOutcome::Wrote(10), 10, 20, false));
}

#[test]
fn speed_server_runs_once() {
    let mut server = SpeedServer::default();
    assert_eq!(server.running_port(), None);
    server.start(31000);
    assert_eq!(server.running_port(), Some(31000));
    server.stop();
    assert_eq!(server, SpeedServer { running: false, port: 0 });
}

#[test]
fn cleanup_is_single_owner_operation() {
    let mut registry = RunRegistry::default();
    let mut coordinator = ResourceCoordinator::default();
    let generation = coordinator.claim(&mut registry, "account-1", "run-1").unwrap();
    assert!(coordinator.mark_ready("account-1", "run-1", generation));
    assert!(coordinator.begin_cleanup("account-1", "run-1", generation));
    assert!(!coordinator.begin_cleanup("account-1", "run-1", generation));
}

#[test]
fn late_cleanup_cannot_release_another_run() {
    let mut registry = RunRegistry::default();
    let mut coordinator = ResourceCoordinator::default();
    let first = coordinator.claim(&mut registry, "account-1", "run-1").unwrap();
    assert!(coordinator.mark_ready("account-1", "run-1", first));
    assert!(coordinator.begin_cleanup("account-1", "run-1", first));
    assert!(coordinator.finish_cleanup("account-1", "run-1", first));
    let second = coordinator.claim(&mut registry, "account-1", "run-2").unwrap();
    assert!(!coordinator.finish_cleanup("account-1", "run-1", first));
    assert!(coordinator.is_owner("account-1", "run-2", second));
}

#[test]
fn completed_run_id_can_be_reused_sequentially() {
    let mut registry = RunRegistry::default();
    let mut coordinator = ResourceCoordinator::default();
    let generation = coordinator.claim(&mut registry, "account-1", "run-1").unwrap();
    assert!(coordinator.mark_ready("account-1", "run-1", generation));
    assert!(coordinator.begin_cleanup("account-1", "run-1", generation));
    assert!(coordinator.finish_cleanup("account-1", "run-1", generation));
    assert!(coordinator.claim(&mut registry, "account-1", "run-1").is_ok());
}

#[test]
fn duplicate_setup_is_rejected() {
    let mut registry = RunRegistry::default();
    let mut coordinator = ResourceCoordinator::default();
    coordinator.claim(&mut registry, "account-1", "run-1").unwrap();
    assert!(coordinator.claim(&mut registry, "account-1", "run-1").is_err());
}

#[test]
fn external_cleanup_waits_until_setup_is_ready() {
    let mut registry = RunRegistry::default();
    let mut coordinator = ResourceCoordinator::default();
    let generation = coordinator.claim(&mut registry, "account-1", "run-1").unwrap();
    assert!(!coordinator.begin_cleanup("account-1", "run-1", generation));
    assert!(coordinator.mark_ready("account-1", "run-1", generation));
    assert!(coordinator.begin_cleanup("account-1", "run-1", generation));
}

#[test]
fn failed_cleanup_can_be_retried() {
    let mut registry = RunRegistry::default();
    let mut coordinator = ResourceCoordinator::default();
    let generation = coordinator.claim(&mut registry, "account-1", "run-1").unwrap();
    assert!(coordinator.mark_ready("account-1", "run-1", generation));
    assert!(coordinator.begin_cleanup("account-1", "run-1", generation));
    assert!(coordinator.abort_cleanup("account-1", "run-1", generation));
    assert!(coordinator.begin_cleanup("account-1", "run-1", generation));
}

#[test]
fn another_account_cannot_cleanup_active_resources() {
    let mut registry = RunRegistry::default();
    let mut coordinator = ResourceCoordinator::default();
    let generation = coordinator.claim(&mut registry, "account-1", "run-1").unwrap();
    assert!(coordinator.mark_ready("account-1", "run-1", generation));
    assert!(!coordinator.begin_cleanup("account-2", "run-1", generation));
    assert!(coordinator.is_owner("account-1", "run-1", generation));
}

#[test]
fn claims_are_refused_in_words() {
    let mut registry = RunRegistry::new();
    let mut coordinator = ResourceCoordinator::new();
    assert_eq!(
        claim_run(&mut coordinator, &mut registry, "a", "").unwrap_err(),
        "runId 不能为空"
    );
    let generation = claim_run(&mut coordinator, &mut registry, "a", "r").unwrap();
    assert_eq!(
        claim_run(&mut coordinator, &mut registry, "b", "s").unwrap_err(),
        "已有其他全链路测速正在占用发送端资源"
    );
    complete_run(&mut coordinator, &mut registry, "b", "s", generation);
    assert!(coordinator.active.is_some());
    complete_run(&mut coordinator, &mut registry, "a", "r", generation);
    assert!(coordinator.active.is_none());
    assert!(!registry.entries.contains_key("a:r"));
}

fn begin(
    resources: &mut Resources,
    registry: &mut RunRegistry,
) -> Setup {
    let (setup, action) =
        handle_setup(resources, registry, &params("run-1"), &context("0", "token")).unwrap();
    assert!(matches!(action, SetupAction::FetchUserToken));
    setup
}

fn probing(
    resources: &mut Resources,
    registry: &mut RunRegistry,
) -> Setup {
    let mut setup = begin(resources, registry);
    let action = setup.advance(resources, registry, SetupEvent::UserToken(Ok("ut".to_string())));
    assert!(matches!(action, SetupAction::PrepareFrpc));
    let action = setup.advance(resources, registry, SetupEvent::Frpc(Ok("/usr/bin/frpc".to_string())));
    assert!(matches!(action, SetupAction::StartServer));
    let action = setup.advance(resources, registry, SetupEvent::Server(Ok(40000)));
    assert!(matches!(action, SetupAction::CreateTunnel(node, 40000) if node == "node1"));
    match setup.advance(resources, registry, SetupEvent::Tunnel(Ok(tunnel()))) {
        SetupAction::StartFrpc(path, s) => {
            assert_eq!(path, "/usr/bin/frpc");
            assert_eq!(resources.tunnel_id, Some(42));
            assert_eq!(s.user_token, "ut");
            assert_eq!(s.local_port, 40000);
            assert_eq!(s.remote_port, 31000);
        }
        _ => panic!("frpc is not started"),
    }
    let action = setup.advance(resources, registry, SetupEvent::Started(Ok(())));
    assert!(matches!(action, SetupAction::CheckFrpc));
    match setup.advance(resources, registry, SetupEvent::Checked(None)) {
        SetupAction::Probe(a) => assert_eq!(a, "1.2.3.4:31000"),
        _ => panic!("the tunnel is not probed"),
    }
    setup
}

#[test]
fn setup_answers_the_tunnel_once_it_is_up() {
    let mut registry = RunRegistry::new();
    let mut resources = Resources::new();
    let mut setup = probing(&mut resources, &mut registry);
    let action = setup.advance(&mut resources, &registry, SetupEvent::Probed(false, 29_999));
    assert!(matches!(action, SetupAction::Wait));
    setup.advance(&mut resources, &registry, SetupEvent::Checked(None));
    match setup.advance(&mut resources, &registry, SetupEvent::Probed(true, 30_000)) {
        SetupAction::Answer(j) => {
            assert_eq!(j.flag("success"), Some(true));
            assert_eq!(j.text("nodeIp"), Some("1.2.3.4"));
            assert_eq!(j.unsigned("remotePort"), Some(31000));
            assert_eq!(j.signed("tunnelId"), Some(42));
            assert_eq!(j.unsigned("protocolVersion"), Some(2));
            assert!(matches!(j.get("error"), Some(Json::Null)));
        }
        _ => panic!("no answer"),
    }
    assert_eq!(setup.stage, SetupStage::Ready);
    assert!(resources.coordinator.active.as_ref().unwrap().ready);
}

fn undo(action: SetupAction) -> (bool, Option<i64>, bool, String, String) {
    match action {
        SetupAction::Undo { stop_frpc, delete_tunnel, stop_server, error } => {
            (stop_frpc, delete_tunnel, stop_server, error.code, error.message)
        }
        _ => panic!("nothing is undone"),
    }
}

#[test]
fn setup_that_times_out_takes_everything_down() {
    let mut registry = RunRegistry::new();
    let mut resources = Resources::new();
    let mut setup = probing(&mut resources, &mut registry);
    let action = setup.advance(&mut resources, &registry, SetupEvent::Probed(false, 30_000));
    assert_eq!(
        undo(action),
        (
            true,
            Some(42),
            true,
            "TUNNEL_READY_TIMEOUT".to_string(),
            "隧道在 30 秒内未就绪: 1.2.3.4:31000".to_string()
        )
    );
}

#[test]
fn undone_setup_frees_everything() {
    let mut registry = RunRegistry::new();
    let mut resources = Resources::new();
    let mut setup = probing(&mut resources, &mut registry);
    resources.server.start(40000);
    let timed_out = SetupEvent::Probed(false, 30_000);
    assert!(setup.awaits(&timed_out));
    assert!(!setup.awaits(&SetupEvent::Checked(None)));
    let stop_server = undo(setup.advance(&mut resources, &registry, timed_out)).2;
    assert!(resources.coordinator.active.is_some());
    setup.undone(&mut resources, &mut registry, stop_server);
    assert!(resources.coordinator.active.is_none());
    assert_eq!(resources.server, SpeedServer { running: false, port: 0 });
    assert!(registry.is_cancelled("0:run-1", setup.generation));
    assert!(handle_setup(&mut resources, &mut registry, &params("run-2"), &context("0", "t")).is_ok());
}

#[test]
fn setup_that_answers_too_late_times_out() {
    let mut registry = RunRegistry::new();
    let mut resources = Resources::new();
    let mut setup = probing(&mut resources, &mut registry);
    let action = setup.advance(&mut resources, &registry, SetupEvent::Probed(true, 30_001));
    assert_eq!(undo(action).3, "TUNNEL_READY_TIMEOUT");
}

#[test]
fn setup_fails_with_what_it_holds() {
    let mut registry = RunRegistry::new();
    let mut resources = Resources::new();
    let mut setup = begin(&mut resources, &mut registry);
    let action = setup.advance(&mut resources, &registry, SetupEvent::UserToken(Err("e".to_string())));
    assert_eq!(undo(action), (false, None, false, "FRPC_AUTH_FAILED".to_string(), "e".to_string()));

    let mut resources = Resources::new();
    let mut setup = begin(&mut resources, &mut registry);
    setup.advance(&mut resources, &registry, SetupEvent::UserToken(Ok("t".to_string())));
    let action = setup.advance(&mut resources, &registry, SetupEvent::Frpc(Err("e".to_string())));
    assert_eq!(undo(action), (false, None, false, "FRPC_PREPARE_FAILED".to_string(), "e".to_string()));

    let mut resources = Resources::new();
    let mut setup = begin(&mut resources, &mut registry);
    setup.advance(&mut resources, &registry, SetupEvent::UserToken(Ok("t".to_string())));
    setup.advance(&mut resources, &registry, SetupEvent::Frpc(Ok("p".to_string())));
    let action = setup.advance(&mut resources, &registry, SetupEvent::Server(Err("e".to_string())));
    assert_eq!(undo(action), (false, None, false, "EXEC_FAILED".to_string(), "e".to_string()));

    let mut resources = Resources::new();
    let mut setup = begin(&mut resources, &mut registry);
    setup.advance(&mut resources, &registry, SetupEvent::UserToken(Ok("t".to_string())));
    setup.advance(&mut resources, &registry, SetupEvent::Frpc(Ok("p".to_string())));
    setup.advance(&mut resources, &registry, SetupEvent::Server(Ok(1)));
    let action = setup.advance(&mut resources, &registry, SetupEvent::Tunnel(Err("e".to_string())));
    assert_eq!(undo(action), (false, None, true, "EXEC_FAILED".to_string(), "e".to_string()));

    let mut resources = Resources::new();
    let mut setup = begin(&mut resources, &mut registry);
    setup.advance(&mut resources, &registry, SetupEvent::UserToken(Ok("t".to_string())));
    setup.advance(&mut resources, &registry, SetupEvent::Frpc(Ok("p".to_string())));
    setup.advance(&mut resources, &registry, SetupEvent::Server(Ok(1)));
    setup.advance(&mut resources, &registry, SetupEvent::Tunnel(Ok(tunnel())));
    let action = setup.advance(&mut resources, &registry, SetupEvent::Started(Err("e".to_string())));
    assert_eq!(undo(action), (false, Some(42), true, "EXEC_FAILED".to_string(), "e".to_string()));
}

#[test]
fn setup_reports_an_exited_process() {
    let mut registry = RunRegistry::new();
    let mut resources = Resources::new();
    let mut setup = probing(&mut resources, &mut registry);
    setup.advance(&mut resources, &registry, SetupEvent::Probed(false, 0));
    let action = setup.advance(
        &mut resources,
        &registry,
        SetupEvent::Checked(Some("frpc 已退出: 1".to_string())),
    );
    assert_eq!(
        undo(action),
        (true, Some(42), true, "FRPC_START_FAILED".to_string(), "frpc 已退出: 1".to_string())
    );
}

#[test]
fn cancelled_setup_is_undone() {
    let mut registry = RunRegistry::new();
    let mut resources = Resources::new();
    let mut setup = probing(&mut resources, &mut registry);
    setup.advance(&mut resources, &registry, SetupEvent::Probed(false, 0));
    cancel_run(&mut registry, "0", "run-1");
    let action = setup.advance(&mut resources, &registry, SetupEvent::Checked(None));
    assert_eq!(
        undo(action),
        (true, Some(42), true, "CANCELLED".to_string(), "测速已强制停止".to_string())
    );

    let mut registry = RunRegistry::new();
    let mut resources = Resources::new();
    let mut setup = begin(&mut resources, &mut registry);
    setup.advance(&mut resources, &registry, SetupEvent::UserToken(Ok("t".to_string())));
    setup.advance(&mut resources, &registry, SetupEvent::Frpc(Ok("p".to_string())));
    setup.advance(&mut resources, &registry, SetupEvent::Server(Ok(1)));
    cancel_run(&mut registry, "0", "run-1");
    let action = setup.advance(&mut resources, &registry, SetupEvent::Tunnel(Ok(tunnel())));
    assert_eq!(
        undo(action),
        (false, Some(42), true, "CANCELLED".to_string(), "测速已强制停止".to_string())
    );
}

#[test]
fn setup_gives_way_to_a_cleanup_under_way() {
    let mut registry = RunRegistry::new();
    let mut resources = Resources::new();
    let mut setup = probing(&mut resources, &mut registry);
    resources.coordinator.active.as_mut().unwrap().cleaning = true;
    let action = setup.advance(&mut resources, &registry, SetupEvent::Probed(true, 1));
    assert_eq!(
        undo(action),
        (true, Some(42), true, "CANCELLED".to_string(), "测速资源已进入清理流程".to_string())
    );
}

#[test]
fn setup_that_cannot_begin_holds_nothing() {
    let mut registry = RunRegistry::new();
    let mut resources = Resources::new();
    let error = handle_setup(&mut resources, &mut registry, &params(""), &context("0", "t")).unwrap_err();
    assert_eq!((error.code.as_str(), error.message.as_str()), ("RESOURCE_BUSY", "runId 不能为空"));
    let error = handle_setup(&mut resources, &mut registry, &params("r"), &context("0", "")).unwrap_err();
    assert_eq!((error.code.as_str(), error.message.as_str()), ("EXEC_FAILED", "当前连接缺少 proxyToken"));
    assert!(resources.coordinator.active.is_none());
    cancel_run(&mut registry, "0", "r");
    let error = handle_setup(&mut resources, &mut registry, &params("r"), &context("0", "t")).unwrap_err();
    assert_eq!((error.code.as_str(), error.message.as_str()), ("CANCELLED", "测速已强制停止"));
    assert!(resources.coordinator.active.is_none());
    assert!(!registry.entries.contains_key("0:r"));
    assert!(handle_setup(&mut resources, &mut registry, &params("r"), &context("0", "t")).is_ok());
}

fn reason(start: CleanupStart) -> String {
    match start {
        CleanupStart::Answer(j) => {
            assert_eq!(j.flag("cleaned"), Some(false));
            j.text_or("reason", "")
        }
        CleanupStart::Clean(_, _) => panic!("cleaned"),
    }
}

#[test]
fn cleanup_goes_through_once() {
    let mut registry = RunRegistry::new();
    let mut resources = Resources::new();
    let run = Json::parse(r#"{"runId":"run-1"}"#).unwrap();
    let ctx = context("0", "token");
    assert_eq!(reason(handle_cleanup(&mut resources, &run, &ctx)), "RUN_NOT_ACTIVE");
    let mut setup = probing(&mut resources, &mut registry);
    assert_eq!(reason(handle_cleanup(&mut resources, &run, &ctx)), "CLEANUP_IN_PROGRESS");
    setup.advance(&mut resources, &registry, SetupEvent::Probed(true, 1));
    resources.server.start(40000);
    let generation = match handle_cleanup(&mut resources, &run, &ctx) {
        CleanupStart::Clean(g, tunnel) => {
            assert_eq!(tunnel, Some(42));
            g
        }
        CleanupStart::Answer(_) => panic!("refused"),
    };
    assert_eq!(reason(handle_cleanup(&mut resources, &run, &ctx)), "CLEANUP_IN_PROGRESS");
    assert_eq!(reason(handle_cleanup(&mut resources, &run, &context("1", "t"))), "RUN_NOT_ACTIVE");
    let error = finish_cleanup(
        &mut resources,
        &mut registry,
        &run,
        &ctx,
        generation,
        Err("删除隧道失败: x".to_string()),
    )
    .unwrap_err();
    assert_eq!((error.code.as_str(), error.message.as_str()), ("CLEANUP_FAILED", "删除隧道失败: x"));
    assert_eq!(resources.tunnel_id, Some(42));
    assert_eq!(resources.server.running_port(), Some(40000));
    let owner = resources.coordinator.active.as_ref().unwrap();
    assert!(owner.ready && !owner.cleaning);
    let generation = match handle_cleanup(&mut resources, &run, &ctx) {
        CleanupStart::Clean(g, tunnel) => {
            assert_eq!(tunnel, Some(42));
            g
        }
        CleanupStart::Answer(_) => panic!("refused"),
    };
    let answer = finish_cleanup(&mut resources, &mut registry, &run, &ctx, generation, Ok(())).unwrap();
    assert_eq!(answer.flag("cleaned"), Some(true));
    assert!(resources.coordinator.active.is_none());
    assert_eq!(resources.tunnel_id, None);
    assert_eq!(resources.server.running_port(), None);
    assert!(!registry.entries.contains_key("0:run-1"));
}

#[test]
fn addresses_join_host_and_port() {
    assert_eq!(address("node.example.com", 0), "node.example.com:0");
    assert_eq!(address("1.2.3.4", 65535), "1.2.3.4:65535");
}
