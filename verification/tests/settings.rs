use chmlfrp_toolbox_daemon::commands::auth::RefreshError;
use chmlfrp_toolbox_daemon::commands::daemon_config::{
    add_account, apply_proxy_token, delete_account, get_config, modify_account, set_backend_url,
    token_preview, update_proxy_token, AddAccountParams, DeleteAccountParams,
    ModifyAccountParams, SetBackendUrlParams, UpdateProxyTokenParams,
};
use chmlfrp_toolbox_daemon::commands::daemon_service::{
    get_logs, get_service_status, judge_control, judge_journal, service_control, GetLogsParams,
    LogsPlan, ServiceAction, ServiceControlParams, ServicePlan,
};
use chmlfrp_toolbox_daemon::commands::command_line::RunOutcome;
use chmlfrp_toolbox_daemon::commands::delete_my_data;
use chmlfrp_toolbox_daemon::commands::{CommandContext, RpcError};
use chmlfrp_toolbox_daemon::config;
use chmlfrp_toolbox_daemon::config::{AccountConfig, Config, DeviceId, LogConfig, ServerConfig, UpdateConfig};
use chmlfrp_toolbox_daemon::json::Json;
use chmlfrp_toolbox_daemon::db::{delete_user_data, init_db_dir, user_db_path, Deletion};

fn sample(tokens: &[&str]) -> Config {
    Config {
        server: ServerConfig { backend_url: "wss://b".to_string(), data_dir: "/d".to_string() },
        update: UpdateConfig::default(),
        log: LogConfig::default(),
        accounts: tokens
            .iter()
            .map(|t| AccountConfig { proxy_token: t.to_string(), device_name: format!("dev-{}", t) })
            .collect(),
    }
}

fn tokens(cfg: &Config) -> Vec<&str> {
    cfg.accounts.iter().map(|a| a.proxy_token.as_str()).collect()
}

fn context(account: &str, token: &str) -> CommandContext {
    CommandContext {
        device_id: String::new(),
        data_dir: String::new(),
        config_path: String::new(),
        proxy_token: token.to_string(),
        account_id: account.to_string(),
        backend_url: String::new(),
        user_id: Some(-5),
        request_id: String::new(),
    }
}

#[test]
fn defaults_are_as_documented() {
    assert!(!UpdateConfig::default().auto_update);
    assert_eq!(LogConfig::default().retention_days, 7);
    assert_eq!(config::default_data_dir(), "/var/lib/chmlfrp-toolbox-daemon");
    assert_eq!(config::default_config_path(), "/etc/chmlfrp-toolbox-daemon/config.toml");
    let template = config::generate_template();
    assert_eq!(template.server.backend_url, "wss://api.cct.zdzz.top");
    assert_eq!(template.accounts[0].proxy_token, "在此填入你的_proxyToken");
    assert_eq!(template.accounts[0].device_name, "我的服务器");
    assert!(config::saved_header().starts_with("# ChmlFrp"));
    assert!(config::template_header().ends_with("\n\n"));
}

#[test]
fn configurations_are_checked() {
    assert_eq!(
        config::load_config("/x", false, Ok(sample(&["a"]))).unwrap_err(),
        "配置文件不存在: /x，请运行 `chmlfrp-toolbox-daemon init-config` 生成模板"
    );
    assert_eq!(config::load_config("/x", true, Err("bad toml".to_string())).unwrap_err(), "bad toml");
    assert_eq!(
        config::load_config("/x", true, Ok(sample(&[]))).unwrap_err(),
        "配置文件中未配置任何账号，请在 [[accounts]] 添加 proxy_token"
    );
    assert_eq!(
        config::load_config("/x", true, Ok(sample(&["a", " ", ""]))).unwrap_err(),
        "第 2 个账号的 proxy_token 为空"
    );
    assert_eq!(tokens(&config::load_config("/x", true, Ok(sample(&["a", "b"]))).unwrap()), vec!["a", "b"]);
}

#[test]
fn accounts_are_added_once() {
    let mut cfg = sample(&["a"]);
    config::add_account(&mut cfg, "b".to_string(), "n".to_string()).unwrap();
    assert_eq!(tokens(&cfg), vec!["a", "b"]);
    assert_eq!(
        config::add_account(&mut cfg, "a".to_string(), "m".to_string()).unwrap_err(),
        "该 proxyToken 已存在"
    );
    config::delete_account(&mut cfg, 2).unwrap();
    assert_eq!(tokens(&cfg), vec!["a"]);
}

#[test]
fn accounts_are_changed_by_number() {
    let mut cfg = sample(&["a", "b"]);
    config::modify_account(&mut cfg, 2, Some("c".to_string()), None).unwrap();
    assert_eq!(tokens(&cfg), vec!["a", "c"]);
    assert_eq!(cfg.accounts[1].device_name, "dev-b");
    config::modify_account(&mut cfg, 1, None, Some("n".to_string())).unwrap();
    assert_eq!(cfg.accounts[0].device_name, "n");
    for index in [0, 3] {
        assert_eq!(
            config::modify_account(&mut cfg, index, None, None).unwrap_err(),
            format!("账号序号无效: {}（共 2 个账号）", index)
        );
        assert!(config::delete_account(&mut cfg, index).is_err());
    }
}

#[test]
fn tokens_are_replaced_by_token_or_number() {
    let mut cfg = sample(&["a", "b"]);
    config::replace_account_token(&mut cfg, "b", "n", 1).unwrap();
    assert_eq!(tokens(&cfg), vec!["a", "n"]);
    config::replace_account_token(&mut cfg, "gone", "m", 1).unwrap();
    assert_eq!(tokens(&cfg), vec!["m", "n"]);
    assert!(config::replace_account_token(&mut cfg, "gone", "x", 0).is_err());
    assert!(config::replace_account_token(&mut cfg, "gone", "x", 3).is_err());
    assert_eq!(cfg.accounts[1].device_name, "dev-b");
}

#[test]
fn other_settings_are_changed() {
    let mut cfg = sample(&["a"]);
    config::set_backend_url(&mut cfg, "wss://c".to_string());
    config::set_auto_update(&mut cfg, true);
    assert_eq!(cfg.server.backend_url, "wss://c");
    assert!(cfg.update.auto_update);
}

#[test]
fn override_comes_before_configuration() {
    assert!(config::get_effective_auto_update(Some(true), Some(false)));
    assert!(!config::get_effective_auto_update(Some(false), Some(true)));
    assert!(config::get_effective_auto_update(None, Some(true)));
    assert!(!config::get_effective_auto_update(None, None));
    assert_eq!(config::auto_update_override_path("/d"), "/d/update_settings.json");
    assert_eq!(config::override_text(true), "{\"auto_update\":true}");
    assert_eq!(config::override_text(false), "{\"auto_update\":false}");
}

#[test]
fn saved_override_is_in_force() {
    for enabled in [true, false] {
        for configured in [None, Some(true), Some(false)] {
            for read in [None, Some(true), Some(false)] {
                let said =
                    config::load_auto_update_override(Some(config::override_text(enabled)), read);
                assert_eq!(config::get_effective_auto_update(said, configured), enabled);
            }
        }
    }
    let by_hand = "{ \"auto_update\": true }";
    assert_eq!(config::load_auto_update_override(Some(by_hand), Some(true)), Some(true));
    assert_eq!(config::load_auto_update_override(Some("broken"), None), None);
    assert_eq!(config::load_auto_update_override(None, Some(true)), None);
}

#[test]
fn device_id_is_kept() {
    assert_eq!(config::device_id_path("/d/"), "/d/device_id");
    assert!(matches!(config::get_or_create_device_id(Some(" id \n")), DeviceId::Kept(id) if id == "id"));
    let fresh = |saved| match config::get_or_create_device_id(saved) {
        DeviceId::New(id) => id,
        DeviceId::Kept(_) => panic!("kept"),
    };
    let a = fresh(None);
    let b = fresh(Some(" \n"));
    assert_eq!(a.len(), 36);
    assert_eq!(a.as_bytes()[14], b'4');
    assert_ne!(a, b);
}

#[test]
fn users_have_their_own_database() {
    assert_eq!(init_db_dir("/d"), "/d/users");
    assert_eq!(user_db_path("/d", 7), "/d/users/7.db");
    assert_eq!(user_db_path("/d/", -7), "/d/users/-7.db");
    assert_eq!(user_db_path("", 0), "users/0.db");
    assert_ne!(user_db_path("/d", 1), user_db_path("/d", 11));
    assert!(matches!(delete_user_data("/d", 7, true), Deletion::Remove(p) if p == "/d/users/7.db"));
    assert!(matches!(delete_user_data("/d", 7, false), Deletion::Nothing));
}

#[test]
fn only_the_own_data_is_deleted() {
    assert_eq!(delete_my_data::handle(&context("0", "t")).unwrap(), -5);
    let mut ctx = context("0", "t");
    ctx.user_id = None;
    let e = delete_my_data::handle(&ctx).unwrap_err();
    assert_eq!((e.code.as_str(), e.message.as_str()), ("EXEC_FAILED", "无法确定 user_id，不能删除数据"));
    assert_eq!(delete_my_data::judge_deletion(Ok(())).unwrap().flag("deleted"), Some(true));
    assert_eq!(
        delete_my_data::judge_deletion(Err("e".to_string())).unwrap_err().message,
        "删除数据失败: e"
    );
}

#[test]
fn tokens_are_not_shown() {
    assert_eq!(token_preview("12345678"), "12345678");
    assert_eq!(token_preview("123456789"), "12345678...");
    assert_eq!(token_preview("ééééééééé"), "éééééééé...");
    assert_eq!(token_preview("在此填入"), "在此填入");
    let answer = get_config(Ok(sample(&["short", "long-secret-token"]))).unwrap();
    assert_eq!(answer.text("backendUrl"), Some("wss://b"));
    assert_eq!(answer.text("dataDir"), Some("/d"));
    assert_eq!(answer.flag("autoUpdate"), Some(false));
    let accounts = answer.get("accounts").unwrap().items().unwrap();
    assert_eq!(accounts[0].unsigned("index"), Some(1));
    assert_eq!(accounts[0].text("tokenPreview"), Some("short"));
    assert_eq!(accounts[1].text("tokenPreview"), Some("long-sec..."));
    assert_eq!(accounts[1].text("deviceName"), Some("dev-long-secret-token"));
    assert_eq!(get_config(Err("e".to_string())).unwrap_err().code, "CONFIG_LOAD_FAILED");
}

#[test]
fn template_can_be_shown() {
    let answer = get_config(Ok(config::generate_template())).unwrap();
    let accounts = answer.get("accounts").unwrap().items().unwrap();
    assert_eq!(accounts.len(), 1);
    assert_eq!(accounts[0].unsigned("index"), Some(1));
    assert_eq!(accounts[0].text("tokenPreview"), Some("在此填入你的_p..."));
    assert!(!format!("{:?}", answer).contains("在此填入你的_proxyToken"));
}

fn add(loaded: Result<Config, String>, t: &str) -> Result<(Config, Json), RpcError> {
    add_account(loaded, AddAccountParams { proxy_token: t.to_string(), device_name: "n".to_string() })
}

fn broken() -> Result<Config, String> {
    Err("bad toml".to_string())
}

#[test]
fn remote_changes_are_answered() {
    let (cfg, answer) = add(Ok(sample(&["a"])), "b").unwrap();
    assert_eq!(answer.text("message"), Some("账号已添加，重启服务后生效"));
    assert_eq!(tokens(&cfg), vec!["a", "b"]);
    let change = ModifyAccountParams { index: 2, proxy_token: Some("c".to_string()), device_name: None };
    let (cfg, answer) = modify_account(Ok(cfg), change).unwrap();
    assert_eq!(answer.text("message"), Some("账号已修改，重启服务后生效"));
    assert_eq!(tokens(&cfg), vec!["a", "c"]);
    let (cfg, answer) = delete_account(Ok(cfg), DeleteAccountParams { index: 1 }).unwrap();
    assert_eq!(answer.text("message"), Some("账号已删除，重启服务后生效"));
    assert_eq!(tokens(&cfg), vec!["c"]);
    let moved = SetBackendUrlParams { backend_url: "wss://z".to_string() };
    let (cfg, answer) = set_backend_url(Ok(cfg), moved).unwrap();
    assert_eq!(answer.text("message"), Some("后端地址已修改，重启服务后生效"));
    assert_eq!(cfg.server.backend_url, "wss://z");
}

#[test]
fn remote_changes_are_refused() {
    let both = |e: RpcError| (e.code, e.message);
    let invalid = |m: &str| ("INVALID_PARAMS".to_string(), m.to_string());
    let unsaved = |m: &str| ("CONFIG_SAVE_FAILED".to_string(), m.to_string());
    assert_eq!(both(add(broken(), " ").unwrap_err()), invalid("proxyToken 不能为空"));
    assert_eq!(both(add(broken(), "b").unwrap_err()), unsaved("bad toml"));
    assert_eq!(both(add(Ok(sample(&["a"])), "a").unwrap_err()), unsaved("该 proxyToken 已存在"));
    let change = || ModifyAccountParams { index: 9, proxy_token: None, device_name: None };
    assert_eq!(
        both(modify_account(Ok(sample(&["a", "b"])), change()).unwrap_err()),
        unsaved("账号序号无效: 9（共 2 个账号）")
    );
    assert_eq!(both(modify_account(broken(), change()).unwrap_err()), unsaved("bad toml"));
    let removal = DeleteAccountParams { index: 0 };
    assert_eq!(
        both(delete_account(Ok(sample(&["a"])), removal).unwrap_err()),
        unsaved("账号序号无效: 0（共 1 个账号）")
    );
    assert_eq!(both(delete_account(broken(), removal).unwrap_err()), unsaved("bad toml"));
    let url = |u: &str| SetBackendUrlParams { backend_url: u.to_string() };
    assert_eq!(both(set_backend_url(broken(), url(" ")).unwrap_err()), invalid("backendUrl 不能为空"));
    assert_eq!(both(set_backend_url(broken(), url("u")).unwrap_err()), unsaved("bad toml"));
}

fn new_token(t: &str) -> UpdateProxyTokenParams {
    UpdateProxyTokenParams { proxy_token: t.to_string() }
}

#[test]
fn new_tokens_are_checked_before_they_are_saved() {
    let ctx = context("1", "old");
    assert_eq!(update_proxy_token(&new_token(" new "), &ctx).unwrap(), "new");
    assert_eq!(update_proxy_token(&new_token(" "), &ctx).unwrap_err().code, "INVALID_PARAMS");
    assert_eq!(update_proxy_token(&new_token("old "), &ctx).unwrap_err().code, "TOKEN_UNCHANGED");
    let refusal = || Err(RefreshError::new("RATE_LIMITED", "慢".to_string()));
    let refused = apply_proxy_token(broken(), &ctx, "new", refusal()).unwrap_err();
    assert_eq!((refused.code.as_str(), refused.message.as_str()), ("RATE_LIMITED", "新令牌校验失败: 慢"));
    let unsaved = apply_proxy_token(broken(), &ctx, "new", Ok(())).unwrap_err();
    assert_eq!((unsaved.code.as_str(), unsaved.message.as_str()), ("CONFIG_SAVE_FAILED", "bad toml"));
    let (cfg, answer) = apply_proxy_token(Ok(sample(&["a", "b"])), &ctx, "new", Ok(())).unwrap();
    assert_eq!(answer.text("message"), Some("令牌已更新，正在使用新令牌重连"));
    assert_eq!(tokens(&cfg), vec!["a", "new"]);
    let (cfg, _) = apply_proxy_token(Ok(cfg), &context("1", "a"), "new2", Ok(())).unwrap();
    assert_eq!(tokens(&cfg), vec!["new2", "new"]);
    let lost = apply_proxy_token(Ok(cfg), &context("x", "gone"), "n", Ok(())).unwrap_err();
    assert_eq!(lost.code, "CONFIG_SAVE_FAILED");
}

fn control(action: &str, root: bool) -> Result<ServicePlan, String> {
    service_control(&ServiceControlParams { action: action.to_string() }, root).map_err(|e| e.message)
}

#[test]
fn service_is_controlled() {
    assert!(matches!(control("status", true), Ok(ServicePlan::Status)));
    for (name, wanted) in [
        ("restart", ServiceAction::Restart),
        ("stop", ServiceAction::Stop),
        ("start", ServiceAction::Start),
    ] {
        match control(name, false) {
            Ok(ServicePlan::Run(action, c)) => {
                assert_eq!(action, wanted);
                assert_eq!(c.program, "sudo");
                assert_eq!(c.args, vec!["systemctl", name, "chmlfrp-toolbox-daemon"]);
            }
            _ => panic!("not run"),
        }
        match control(name, true) {
            Ok(ServicePlan::Run(_, c)) => {
                assert_eq!(c.program, "systemctl");
                assert_eq!(c.args, vec![name, "chmlfrp-toolbox-daemon"]);
            }
            _ => panic!("not run"),
        }
    }
    assert_eq!(
        control("reload", true).unwrap_err(),
        "不支持的操作: reload（支持 start/stop/restart/status）"
    );
}

#[test]
fn service_control_is_judged() {
    let ended = |success| RunOutcome::Ended { success, stderr: "e".to_string() };
    let message = |action| judge_control(action, ended(true)).unwrap().text_or("message", "");
    assert_eq!(message(ServiceAction::Restart), "重启指令已发送，服务将在几秒后重新连接");
    assert_eq!(message(ServiceAction::Stop), "停止指令已发送");
    assert_eq!(message(ServiceAction::Start), "启动指令已发送");
    let failure = |action| judge_control(action, ended(false)).unwrap_err().message;
    assert_eq!(failure(ServiceAction::Restart), "重启失败: e");
    assert_eq!(failure(ServiceAction::Stop), "停止失败: e");
    assert_eq!(failure(ServiceAction::Start), "启动失败: e");
    let e = judge_control(ServiceAction::Stop, RunOutcome::NotRun("x".to_string())).unwrap_err();
    assert_eq!((e.code.as_str(), e.message.as_str()), ("SERVICE_CONTROL_FAILED", "执行 systemctl 失败: x"));
}

#[test]
fn service_status_is_answered() {
    let answer = get_service_status(Some("active\n".to_string()), None);
    let status = answer.get("status").unwrap();
    assert_eq!(status.text("activeState"), Some("active"));
    assert_eq!(status.text("enabledState"), Some("unknown"));
}

#[test]
fn logs_come_from_files_before_the_journal() {
    match get_logs(GetLogsParams { lines: None }, Some("l".to_string()), true) {
        LogsPlan::Answer(j) => {
            assert_eq!(j.text("logs"), Some("l"));
            assert_eq!(j.unsigned("lines"), Some(50));
        }
        LogsPlan::Run(_) => panic!("journal"),
    }
    match get_logs(GetLogsParams { lines: Some(501) }, None, false) {
        LogsPlan::Run(c) => {
            assert_eq!(c.program, "sudo");
            assert_eq!(c.args, vec!["journalctl", "-u", "chmlfrp-toolbox-daemon", "--no-pager", "-n", "500"]);
        }
        LogsPlan::Answer(_) => panic!("answer"),
    }
    let answer = judge_journal(GetLogsParams { lines: Some(3) }, Ok("j".to_string())).unwrap();
    assert_eq!((answer.text("logs"), answer.unsigned("lines")), (Some("j"), Some(3)));
    let e = judge_journal(GetLogsParams { lines: None }, Err("x".to_string())).unwrap_err();
    assert_eq!((e.code.as_str(), e.message.as_str()), ("LOG_FETCH_FAILED", "执行 journalctl 失败: x"));
}
