use chmlfrp_toolbox_daemon::commands::{
    cancel_run, dispatch, finish_run, is_run_cancelled, node_latency_plan, run_generation, Command,
    RpcError, RunRegistry, MAX_RUN_ENTRIES,
};
use chmlfrp_toolbox_daemon::json::Json;

#[test]
fn old_generation_cannot_clear_reused_run() {
    let mut registry = RunRegistry::default();
    let first = registry.generation("run-1");
    assert!(registry.finish("run-1", first));
    let second = registry.generation("run-1");
    assert_ne!(first, second);
    assert!(!registry.finish("run-1", first));
    registry.cancel("run-1");
    assert!(registry.is_cancelled("run-1", second));
}

#[test]
fn old_generation_is_cancelled_after_reuse() {
    let mut registry = RunRegistry::default();
    let first = registry.generation("run-1");
    assert!(registry.finish("run-1", first));
    let second = registry.generation("run-1");
    assert!(registry.is_cancelled("run-1", first));
    assert!(!registry.is_cancelled("run-1", second));
}

#[test]
fn registry_discards_oldest_entries_at_capacity() {
    let mut registry = RunRegistry::default();
    for index in 0..=MAX_RUN_ENTRIES {
        registry.generation(&format!("run-{}", index));
    }
    assert_eq!(registry.entries.len(), MAX_RUN_ENTRIES);
    assert!(!registry.entries.contains_key("run-0"));
}

#[test]
fn newest_entries_survive_at_capacity() {
    let mut registry = RunRegistry::new();
    for index in 0..=MAX_RUN_ENTRIES {
        registry.generation(&format!("run-{}", index));
    }
    assert!(registry.entries.contains_key("run-1"));
    assert!(registry.entries.contains_key(&format!("run-{}", MAX_RUN_ENTRIES)));
    assert_eq!(registry.order.len(), MAX_RUN_ENTRIES);
    assert_eq!(registry.order[0], "run-1");
}

#[test]
fn generation_is_stable_until_the_run_ends() {
    let mut registry = RunRegistry::new();
    assert_eq!(registry.generation("a"), 1);
    assert_eq!(registry.generation("b"), 2);
    assert_eq!(registry.generation("a"), 1);
    assert!(registry.finish("a", 1));
    assert_eq!(registry.generation("a"), 3);
}

#[test]
fn generations_grow_along_the_order() {
    let mut registry = RunRegistry::new();
    for name in ["a", "b", "c"] {
        registry.generation(name);
    }
    registry.cancel("b");
    registry.finish("a", 1);
    registry.generation("a");
    let generations: Vec<u64> =
        registry.order.iter().map(|n| registry.entries.get(n).unwrap().generation).collect();
    assert_eq!(generations, vec![2, 3, 4]);
}

#[test]
fn generation_saturates() {
    let mut registry = RunRegistry::new();
    registry.next_generation = u64::MAX;
    assert_eq!(registry.generation("a"), u64::MAX);
}

#[test]
fn finish_keeps_the_order_of_the_others() {
    let mut registry = RunRegistry::new();
    registry.generation("a");
    let b = registry.generation("b");
    registry.generation("c");
    assert!(registry.finish("b", b));
    assert!(!registry.finish("b", b));
    let names: Vec<String> = registry.order.iter().cloned().collect();
    assert_eq!(names, vec!["a".to_string(), "c".to_string()]);
}

#[test]
fn unknown_run_counts_as_cancelled() {
    let registry = RunRegistry::new();
    assert!(registry.is_cancelled("never-seen", 1));
}

#[test]
fn cancel_before_start_is_remembered() {
    let mut registry = RunRegistry::new();
    cancel_run(&mut registry, "0", "run");
    let generation = run_generation(&mut registry, "0", "run");
    assert!(is_run_cancelled(&registry, "0", "run", generation));
}

#[test]
fn runs_of_accounts_are_apart() {
    let mut registry = RunRegistry::new();
    let mine = run_generation(&mut registry, "0", "run");
    let other = run_generation(&mut registry, "1", "run");
    assert_ne!(mine, other);
    cancel_run(&mut registry, "1", "run");
    assert!(!is_run_cancelled(&registry, "0", "run", mine));
    assert!(is_run_cancelled(&registry, "1", "run", other));
    assert!(!finish_run(&mut registry, "0", "run", other));
    assert!(finish_run(&mut registry, "0", "run", mine));
    assert!(is_run_cancelled(&registry, "0", "run", mine));
}

#[test]
fn routes_every_command_by_its_name() {
    assert_eq!(dispatch("ping").unwrap(), Command::Ping);
    assert_eq!(dispatch("tcping").unwrap(), Command::Tcping);
    assert_eq!(dispatch("node_latency").unwrap(), Command::NodeLatency);
    assert_eq!(dispatch("speedtest").unwrap(), Command::Speedtest);
    assert_eq!(dispatch("tcp_speed_test").unwrap(), Command::TcpSpeedTest);
    assert_eq!(dispatch("tunnel_latency_test").unwrap(), Command::TunnelLatencyTest);
    assert_eq!(dispatch("dns_failover_probe_v1").unwrap(), Command::DnsFailoverProbe);
    assert_eq!(dispatch("e2e_setup").unwrap(), Command::E2eSetup);
    assert_eq!(dispatch("e2e_cleanup").unwrap(), Command::E2eCleanup);
    assert_eq!(dispatch("delete_my_data").unwrap(), Command::DeleteMyData);
    assert_eq!(dispatch("daemon_get_config").unwrap(), Command::GetConfig);
    assert_eq!(dispatch("daemon_add_account").unwrap(), Command::AddAccount);
    assert_eq!(dispatch("daemon_modify_account").unwrap(), Command::ModifyAccount);
    assert_eq!(dispatch("daemon_delete_account").unwrap(), Command::DeleteAccount);
    assert_eq!(dispatch("daemon_set_backend_url").unwrap(), Command::SetBackendUrl);
    assert_eq!(dispatch("update_proxy_token").unwrap(), Command::UpdateProxyToken);
    assert_eq!(dispatch("daemon_service_control").unwrap(), Command::ServiceControl);
    assert_eq!(dispatch("daemon_get_logs").unwrap(), Command::GetLogs);
    assert_eq!(dispatch("daemon_check_update").unwrap(), Command::CheckUpdate);
    assert_eq!(dispatch("daemon_perform_update").unwrap(), Command::PerformUpdate);
    assert_eq!(dispatch("daemon_get_update_settings").unwrap(), Command::GetUpdateSettings);
    assert_eq!(dispatch("daemon_set_auto_update").unwrap(), Command::SetAutoUpdate);
}

#[test]
fn refuses_unknown_commands() {
    let error = dispatch("format_disk").unwrap_err();
    assert_eq!(error.code, "UNKNOWN_COMMAND");
    assert_eq!(error.message, "不支持的命令: format_disk");
    assert!(dispatch("").is_err());
    assert!(dispatch("Ping").is_err());
}

#[test]
fn node_latency_has_defaults() {
    let plan = node_latency_plan(&Json::parse(r#"{"node":"n1"}"#).unwrap());
    assert_eq!((plan.host.as_str(), plan.port, plan.count), ("n1", 7000, 4));
    let plan = node_latency_plan(&Json::parse(r#"{"node":7,"port":65537,"count":4294967298}"#).unwrap());
    assert_eq!((plan.host.as_str(), plan.port, plan.count), ("", 1, 2));
}

#[test]
fn rpc_error_keeps_code_and_message() {
    let error = RpcError::new("CODE", "text".to_string());
    assert_eq!((error.code.as_str(), error.message.as_str()), ("CODE", "text"));
}
