use chmlfrp_toolbox_daemon::commands::frpc_process::{
    build_frpc_config, config_file, exit_message, frpc_exit_error, redact, validate_ini_value,
    FrpcLog, FrpcSettings, ProcessState,
};
use chmlfrp_toolbox_daemon::commands::temp_tunnel::{
    candidates_from, create_temp_tunnel, delete_tunnel, delete_tunnel_url, find_tunnel, is_remote_port_conflict,
    judge_attempt, parse_node_address, parse_node_reply, parse_port_range, remote_port_candidates,
    AttemptVerdict, TunnelAction,
};
use chmlfrp_toolbox_daemon::http::{bearer, decode, HttpReply, JsonReply};
use chmlfrp_toolbox_daemon::json::Json;

fn json(text: &str) -> Json {
    Json::parse(text).unwrap()
}

fn raw(code: u16, status: &str, body: &str) -> Result<HttpReply, String> {
    Ok(HttpReply { code, status: status.to_string(), body: Ok(body.as_bytes().to_vec()) })
}

fn reply(code: u16, status: &str, body: &str) -> Result<JsonReply, String> {
    raw(code, status, body).map(decode)
}

#[test]
fn falls_back_when_primary_node_address_is_null_or_blank() {
    assert_eq!(
        parse_node_address(&json(r#"{ "ip": null, "realIp": "1.2.3.4" }"#)).unwrap(),
        "1.2.3.4"
    );
    assert_eq!(
        parse_node_address(&json(r#"{ "ip": "  ", "real_IP": "node.example.com" }"#)).unwrap(),
        "node.example.com"
    );
}

#[test]
fn reports_missing_node_address_clearly() {
    assert_eq!(
        parse_node_address(&json(r#"{ "ip": null, "realIp": "" }"#)).unwrap_err(),
        "节点信息中缺少可用地址"
    );
}

#[test]
fn node_address_is_trimmed_and_taken_in_order() {
    let node = json(r#"{ "real_IP": "c", "realIp": "b", "ip": " a " }"#);
    assert_eq!(parse_node_address(&node).unwrap(), "a");
}

#[test]
fn recognizes_only_remote_port_conflicts_as_retryable() {
    assert!(is_remote_port_conflict("创建隧道失败: 该远程端口已被占用"));
    assert!(is_remote_port_conflict("remote port already in use"));
    assert!(!is_remote_port_conflict("创建隧道失败: 无效的登录状态"));
    assert!(!is_remote_port_conflict("请求过于频繁"));
}

#[test]
fn recognizes_other_words_for_a_conflict() {
    assert!(is_remote_port_conflict("远程端口已被使用"));
    assert!(is_remote_port_conflict("The Remote Port is OCCUPIED"));
    assert!(!is_remote_port_conflict("远程端口无效"));
    assert!(!is_remote_port_conflict("local port already in use"));
}

#[test]
fn creates_unique_remote_port_candidates_within_range() {
    let ports = remote_port_candidates(20000, 20003, 5);
    assert_eq!(ports.len(), 4);
    assert!(ports.iter().all(|port| (20000..=20003).contains(port)));
    let unique = ports
        .iter()
        .copied()
        .collect::<std::collections::HashSet<_>>();
    assert_eq!(unique.len(), ports.len());
}

#[test]
fn candidates_wrap_around_the_range() {
    assert_eq!(candidates_from(20000, 20003, 3, 2), vec![20002, 20003, 20000]);
    assert_eq!(candidates_from(20003, 20000, 3, 6), vec![20002, 20003, 20000]);
    assert_eq!(candidates_from(7, 7, 5, 123), vec![7]);
    assert_eq!(candidates_from(0, 65535, 2, 65535), vec![65535, 0]);
    assert_eq!(candidates_from(1, 9, 0, 0), Vec::<u16>::new());
}

#[test]
fn candidates_start_at_random() {
    let starts: std::collections::HashSet<u16> =
        (0..20).map(|_| remote_port_candidates(0, 65535, 1)[0]).collect();
    assert!(starts.len() > 1);
}

#[test]
fn port_ranges_are_read() {
    assert_eq!(parse_port_range("10000-20000"), (10000, 20000));
    assert_eq!(parse_port_range(" 30000 - 25000 "), (25000, 30000));
    assert_eq!(parse_port_range("x-30000"), (20000, 30000));
    assert_eq!(parse_port_range("30000-70000"), (30000, 40000));
    assert_eq!(parse_port_range("10000"), (20000, 40000));
    assert_eq!(parse_port_range("1-2-3"), (20000, 40000));
}

#[test]
fn node_replies_are_read() {
    let node = parse_node_reply(reply(
        200,
        "200 OK",
        r#"{"code":200,"data":{"ip":"1.2.3.4","rport":"30000-30010","nodetoken":"t","port":7001}}"#,
    ))
    .unwrap();
    assert_eq!(node.address, "1.2.3.4");
    assert_eq!((node.min_port, node.max_port), (30000, 30010));
    assert_eq!(node.token, "t");
    assert_eq!(node.server_port, 7001);
    let bare = parse_node_reply(reply(200, "200 OK", r#"{"realIp":"h"}"#)).unwrap();
    assert_eq!((bare.address.as_str(), bare.server_port, bare.token.as_str()), ("h", 7000, ""));
    assert_eq!((bare.min_port, bare.max_port), (20000, 40000));
}

#[test]
fn node_replies_are_refused() {
    assert_eq!(
        parse_node_reply(Err("timeout".to_string())).unwrap_err(),
        "获取节点信息失败: timeout"
    );
    assert_eq!(
        parse_node_reply(reply(200, "200 OK", "<html>")).unwrap_err(),
        "解析节点信息失败: error decoding response body"
    );
    assert_eq!(
        parse_node_reply(reply(404, "404 Not Found", r#"{"msg":"无此节点"}"#)).unwrap_err(),
        "获取节点信息失败（HTTP 404 Not Found）: 无此节点"
    );
    assert_eq!(
        parse_node_reply(reply(200, "200 OK", r#"{"code":-1}"#)).unwrap_err(),
        "获取节点信息失败（业务码 -1）: 未知错误"
    );
    assert_eq!(
        parse_node_reply(reply(200, "200 OK", r#"{"code":200,"data":{}}"#)).unwrap_err(),
        "节点信息中缺少可用地址"
    );
}

#[test]
fn attempts_are_judged() {
    assert!(matches!(judge_attempt(reply(200, "200 OK", r#"{"code":200}"#)), AttemptVerdict::Created));
    assert!(matches!(
        judge_attempt(reply(200, "200 OK", r#"{"code":400,"msg":"远程端口已被占用"}"#)),
        AttemptVerdict::PortTaken
    ));
    assert!(matches!(
        judge_attempt(reply(500, "500 Internal Server Error", r#"{"code":200,"msg":"x"}"#)),
        AttemptVerdict::Failed(e) if e == "创建隧道失败: x（HTTP 500 Internal Server Error）"
    ));
    assert!(matches!(
        judge_attempt(reply(200, "200 OK", r#"{"code":401}"#)),
        AttemptVerdict::Failed(e) if e == "创建隧道失败: 未知错误"
    ));
    assert!(matches!(
        judge_attempt(Err("reset".to_string())),
        AttemptVerdict::Failed(e) if e == "创建隧道失败: reset"
    ));
    assert!(matches!(
        judge_attempt(reply(200, "200 OK", "no json")),
        AttemptVerdict::Failed(e) if e == "解析创建隧道响应失败: error decoding response body"
    ));
}

#[test]
fn tunnels_are_found_in_the_list() {
    let body = r#"{"data":[{"name":"a","id":1},{"name":"b","id":2,"dorp":"31000"},{"name":"b","id":3}]}"#;
    assert_eq!(find_tunnel(reply(200, "200 OK", body), "b", 5).unwrap(), (2, 31000));
    let body = r#"[{"name":"b","id":-7,"dorp":"x","remote_port":65537}]"#;
    assert_eq!(find_tunnel(reply(200, "200 OK", body), "b", 5).unwrap(), (-7, 1));
    assert_eq!(find_tunnel(reply(200, "200 OK", r#"[{"name":"b","id":9}]"#), "b", 5).unwrap(), (9, 5));
}

#[test]
fn missing_tunnels_are_reported() {
    assert_eq!(find_tunnel(Err("e".to_string()), "b", 5).unwrap_err(), "获取隧道列表失败: e");
    assert_eq!(
        find_tunnel(reply(200, "200 OK", "?"), "b", 5).unwrap_err(),
        "解析隧道列表失败: error decoding response body"
    );
    assert_eq!(find_tunnel(reply(200, "200 OK", r#"{"data":{}}"#), "b", 5).unwrap_err(), "隧道列表格式错误");
    assert_eq!(find_tunnel(reply(200, "200 OK", r#"{"data":[]}"#), "b", 5).unwrap_err(), "未找到新创建的隧道");
    assert_eq!(
        find_tunnel(reply(200, "200 OK", r#"[{"name":"b"}]"#), "b", 5).unwrap_err(),
        "隧道ID缺失"
    );
}

#[test]
fn tunnel_is_created_step_by_step() {
    let (maker, action) = create_temp_tunnel("node1", 40000);
    assert!(matches!(action, TunnelAction::Get(url) if url == "https://cf-v2.uapis.cn/nodeinfo?node=node1"));
    let (maker, action) = maker.step(
        reply(200, "200 OK", r#"{"ip":"1.2.3.4","rport":"30000-30001","nodetoken":"t"}"#),
        1700000000,
        1,
    );
    match action {
        TunnelAction::Post(url, body) => {
            assert_eq!(url, "https://cf-v2.uapis.cn/create_tunnel");
            assert_eq!(body.text("tunnelname"), Some("e2etest_1700000000_30001_1"));
            assert_eq!(body.text("node"), Some("node1"));
            assert_eq!(body.text("localip"), Some("127.0.0.1"));
            assert_eq!(body.text("porttype"), Some("tcp"));
            assert_eq!(body.unsigned("localport"), Some(40000));
            assert_eq!(body.unsigned("remoteport"), Some(30001));
            assert_eq!(body.flag("encryption"), Some(false));
            assert_eq!(body.flag("compression"), Some(false));
            assert_eq!(body.text("extraparams"), Some(""));
        }
        _ => panic!("no tunnel is asked for"),
    }
    let (maker, action) =
        maker.step(reply(200, "200 OK", r#"{"code":500,"msg":"远程端口已被占用"}"#), 1700000001, 9);
    match action {
        TunnelAction::Post(_, body) => {
            assert_eq!(body.text("tunnelname"), Some("e2etest_1700000001_30000_2"));
        }
        _ => panic!("no other port is tried"),
    }
    assert!(!maker.is_over());
    let (maker, action) = maker.step(reply(200, "200 OK", r#"{"code":200}"#), 1700000002, 9);
    assert!(matches!(action, TunnelAction::Get(url) if url == "https://cf-v2.uapis.cn/tunnel"));
    let (_, action) = maker.step(
        reply(200, "200 OK", r#"{"data":[{"name":"e2etest_1700000001_30000_2","id":5,"dorp":"30000"}]}"#),
        1700000003,
        9,
    );
    match action {
        TunnelAction::Done(t) => {
            assert_eq!(t.tunnel_id, 5);
            assert_eq!(t.node_ip, "1.2.3.4");
            assert_eq!(t.remote_port, 30000);
            assert_eq!(t.node_token, "t");
            assert_eq!(t.server_port, 7000);
            assert_eq!(t.tunnel_name, "e2etest_1700000001_30000_2");
        }
        _ => panic!("no tunnel"),
    }
}

#[test]
fn creation_gives_up_when_every_port_is_taken() {
    let (maker, _) = create_temp_tunnel("n", 1);
    let (mut maker, mut action) = maker.advance(raw(200, "200 OK", r#"{"ip":"h"}"#), 1);
    let mut ports = Vec::new();
    let mut posts = 0;
    while let TunnelAction::Post(_, body) = &action {
        posts += 1;
        ports.push(body.unsigned("remoteport").unwrap());
        let next = maker.advance(raw(200, "200 OK", r#"{"msg":"remote port occupied"}"#), 2);
        maker = next.0;
        action = next.1;
    }
    assert_eq!(posts, 5);
    ports.sort();
    ports.dedup();
    assert_eq!(ports.len(), 5);
    assert!(matches!(action, TunnelAction::Fail(e) if e == "创建隧道失败: 连续 5 个远程端口均已被占用"));
}

#[test]
fn creation_does_not_retry_other_failures() {
    let (maker, _) = create_temp_tunnel("n", 1);
    let (maker, _) = maker.advance(raw(200, "200 OK", r#"{"ip":"h"}"#), 1);
    let (_, action) = maker.advance(raw(200, "200 OK", r#"{"msg":"请求过于频繁"}"#), 2);
    assert!(matches!(action, TunnelAction::Fail(e) if e == "创建隧道失败: 请求过于频繁"));
}

#[test]
fn tunnels_are_deleted() {
    assert_eq!(delete_tunnel_url(-3), "https://cf-v2.uapis.cn/delete_tunnel?tunnelid=-3");
    assert_eq!(delete_tunnel(raw(500, "x", r#"{"code":200}"#)), Ok(()));
    assert_eq!(
        delete_tunnel(raw(200, "x", r#"{"code":404,"msg":"无"}"#)),
        Err("删除隧道失败: 无".to_string())
    );
    assert_eq!(delete_tunnel(Err("e".to_string())), Err("删除隧道请求失败: e".to_string()));
    assert_eq!(
        delete_tunnel(raw(200, "x", "")),
        Err("解析删除隧道响应失败: error decoding response body".to_string())
    );
    let not_text =
        HttpReply { code: 200, status: "x".to_string(), body: Ok(b"{\"msg\":\"\xff\"}".to_vec()) };
    assert_eq!(
        delete_tunnel(Ok(not_text)),
        Err("解析删除隧道响应失败: error decoding response body".to_string())
    );
    let unread = HttpReply { code: 200, status: "x".to_string(), body: Err("e".to_string()) };
    assert_eq!(delete_tunnel(Ok(unread)), Err("解析删除隧道响应失败: e".to_string()));
}

#[test]
fn bearer_header_presents_the_token() {
    assert_eq!(bearer("abc"), "Bearer abc");
}

#[test]
fn frpc_config_contains_user_credential() {
    let config = build_frpc_config(
        "node.example.com",
        7000,
        "user-token",
        "node-token",
        31000,
        32000,
        "e2etest_1",
    )
    .unwrap();

    assert!(config.contains("user = user-token"));
    assert!(config.contains("token = node-token"));
}

#[test]
fn frpc_config_rejects_newline_in_credentials() {
    let result = build_frpc_config(
        "node.example.com",
        7000,
        "user-token\nadmin_addr = 0.0.0.0",
        "node-token",
        31000,
        32000,
        "e2etest_1",
    );

    assert!(result.is_err());
}

#[test]
fn frpc_config_is_exact() {
    assert_eq!(
        build_frpc_config("h", 7000, "u", "n", 1, 2, "t").unwrap(),
        "[common]\nserver_addr = h\nserver_port = 7000\nuser = u\ntoken = n\nlog_level = info\ntls_enable = false\ntcp_mux = true\npool_count = 5\n\n[t]\ntype = tcp\nlocal_ip = 127.0.0.1\nlocal_port = 1\nremote_port = 2\n"
    );
}

#[test]
fn frpc_settings_make_their_config() {
    let settings = |user: &str| FrpcSettings {
        node_ip: "h".to_string(),
        server_port: 7000,
        user_token: user.to_string(),
        node_token: "n".to_string(),
        local_port: 1,
        remote_port: 2,
        tunnel_name: "t".to_string(),
    };
    assert_eq!(
        settings("u").config().unwrap(),
        build_frpc_config("h", 7000, "u", "n", 1, 2, "t").unwrap()
    );
    assert_eq!(settings("u=").config().unwrap_err(), "字段 user 包含非法字符");
    assert_eq!(settings("u").secrets(), vec!["u".to_string(), "n".to_string()]);
}

#[test]
fn frpc_config_names_the_bad_field() {
    for mark in ["\n", "\r", "[", "]", "=", "\0"] {
        assert_eq!(
            validate_ini_value(&format!("a{}b", mark), "user").unwrap_err(),
            "字段 user 包含非法字符"
        );
    }
    assert!(validate_ini_value("a b;c#d", "user").is_ok());
    assert_eq!(
        build_frpc_config("h", 1, "u", "n=", 1, 2, "[t]").unwrap_err(),
        "字段 token 包含非法字符"
    );
    assert_eq!(
        build_frpc_config("h", 1, "u", "n", 1, 2, "[t]").unwrap_err(),
        "字段 tunnel_name 包含非法字符"
    );
    assert_eq!(
        build_frpc_config("h]", 1, "u", "n", 1, 2, "t").unwrap_err(),
        "字段 server_addr 包含非法字符"
    );
}

#[test]
fn frpc_config_file_is_named_by_process() {
    assert_eq!(config_file("/data", 77), "/data/e2e/e2e_frpc_77.ini");
}

#[test]
fn secrets_do_not_reach_the_log() {
    let secrets = vec!["user-token".to_string(), String::new(), "node".to_string()];
    assert_eq!(
        redact("login user-token at node node", &secrets),
        "login [已脱敏] at [已脱敏] [已脱敏]"
    );
    let mut log = FrpcLog::new();
    log.capture("token=user-token", &secrets);
    assert_eq!(log.to_vec(), vec!["token=[已脱敏]".to_string()]);
    log.capture("node lost", &secrets);
    let report = exit_message("1", &log);
    assert_eq!(report, "frpc 已退出: 1，日志: token=[已脱敏] | [已脱敏] lost");
    assert!(!report.contains("user-token") && !report.contains("node"));
}

#[test]
fn log_keeps_the_last_lines_cut_short() {
    let mut log = FrpcLog::new();
    for i in 0..31 {
        log.capture(&format!("line {}", i), &Vec::new());
    }
    let lines = log.to_vec();
    assert_eq!(lines.len(), 30);
    assert_eq!(lines[0], "line 1");
    assert_eq!(lines[29], "line 30");
    log.capture(&"字".repeat(501), &Vec::new());
    assert_eq!(log.to_vec()[29], "字".repeat(500));
}

#[test]
fn exited_process_is_reported_with_its_lines() {
    let mut log = FrpcLog::new();
    assert_eq!(exit_message("exit status: 1", &log), "frpc 已退出: exit status: 1");
    log.capture("a", &Vec::new());
    log.capture("b", &Vec::new());
    assert_eq!(exit_message("exit status: 1", &log), "frpc 已退出: exit status: 1，日志: a | b");
    assert_eq!(frpc_exit_error(ProcessState::Running, &log), None);
    assert_eq!(
        frpc_exit_error(ProcessState::Exited("s".to_string()), &log),
        Some("frpc 已退出: s，日志: a | b".to_string())
    );
    assert_eq!(
        frpc_exit_error(ProcessState::Unknown("e".to_string()), &log),
        Some("检查frpc状态失败: e".to_string())
    );
}
