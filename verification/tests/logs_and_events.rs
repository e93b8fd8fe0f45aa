use chmlfrp_toolbox_daemon::json::Json;
use chmlfrp_toolbox_daemon::logs::{
    cleanup_old_logs, log_dir, log_files, read_file_logs, text_before, LogFile, LogTail,
};
use chmlfrp_toolbox_daemon::telemetry::{
    account_queue_path, report_endpoint, run_reporter, BatchFate, ReportOutcome, UsageEvent,
};

const DAY: u128 = 86_400 * 1_000_000_000;

fn file(name: &str, modified_ns: Option<u128>) -> LogFile {
    LogFile { name: name.to_string(), modified_ns }
}

fn strings(parts: &[&str]) -> Vec<String> {
    parts.iter().map(|p| p.to_string()).collect()
}

#[test]
fn old_logs_are_removed() {
    let now = 100 * DAY;
    assert!(cleanup_old_logs(&file("daemon.log.2026-08-01", Some(93 * DAY - 1)), now, 7));
    assert!(!cleanup_old_logs(&file("daemon.log.2026-08-01", Some(93 * DAY)), now, 7));
    assert!(!cleanup_old_logs(&file("daemon.log.2026-08-01", Some(0)), now, 0));
    assert!(!cleanup_old_logs(&file("other.log", Some(0)), now, 7));
    assert!(!cleanup_old_logs(&file("daemon.log", None), now, 7));
    assert!(!cleanup_old_logs(&file("daemon.log", Some(now + 1)), now, 7));
    assert!(!cleanup_old_logs(&file("daemon.log", Some(0)), now, 101));
    assert!(cleanup_old_logs(&file("daemon.log", Some(0)), now, 99));
}

#[test]
fn log_files_are_in_order() {
    assert_eq!(log_dir("/d"), "/d/logs");
    let names = strings(&["daemon.log.2026-08-15", "x", "daemon.log.2026-08-14", "daemon.log"]);
    assert_eq!(
        log_files(&names),
        strings(&["daemon.log", "daemon.log.2026-08-14", "daemon.log.2026-08-15"])
    );
    assert!(text_before("a", "a"));
    assert!(text_before("", "a"));
    assert!(!text_before("b", "a"));
    assert!(!text_before("aa", "a"));
}

#[test]
fn newest_lines_are_read_across_files() {
    let files = vec![strings(&["a", "b"]), strings(&[]), strings(&["c", "d", "e"])];
    assert_eq!(read_file_logs(&files, 1).unwrap(), "e");
    assert_eq!(read_file_logs(&files, 3).unwrap(), "c\nd\ne");
    assert_eq!(read_file_logs(&files, 4).unwrap(), "b\nc\nd\ne");
    assert_eq!(read_file_logs(&files, 100).unwrap(), "a\nb\nc\nd\ne");
    assert_eq!(read_file_logs(&files, 0), None);
    assert_eq!(read_file_logs(&Vec::new(), 5), None);
    assert_eq!(read_file_logs(&vec![strings(&[])], 5), None);
}

#[test]
fn older_files_are_not_needed_once_there_are_enough_lines() {
    let mut tail = LogTail::new(2);
    tail.add_older(&strings(&["c"]));
    assert!(!tail.full);
    tail.add_older(&strings(&["a", "b"]));
    assert!(tail.full);
    tail.add_older(&strings(&["z"]));
    assert_eq!(tail.text().unwrap(), "b\nc");
}

#[test]
fn token_queue_path_does_not_contain_token() {
    let path = account_queue_path("data", "secret-token");
    assert!(!path.contains("secret-token"));
}

#[test]
fn queue_path_shows_the_digest() {
    assert_eq!(
        account_queue_path("data", "abc"),
        "data/telemetry/ba7816bf8f01cfea414140de5dae2223b00361a396177a9cb410ff61f20015ad.db"
    );
    assert_ne!(account_queue_path("data", "a"), account_queue_path("data", "b"));
}

#[test]
fn reports_go_over_http() {
    assert_eq!(report_endpoint("wss://b/"), "https://b/api/usage/daemon-report");
    assert_eq!(report_endpoint("ws://b"), "http://b/api/usage/daemon-report");
    assert_eq!(report_endpoint("https://b"), "https://b/api/usage/daemon-report");
}

fn answered(code: u16, accepted: Option<bool>) -> ReportOutcome {
    ReportOutcome::Answered { code, status: "s".to_string(), accepted }
}

#[test]
fn events_stay_until_they_are_taken() {
    assert!(matches!(run_reporter(answered(200, Some(true))), BatchFate::Remove));
    assert!(matches!(run_reporter(answered(200, Some(false))), BatchFate::Keep));
    assert!(matches!(run_reporter(answered(200, None)), BatchFate::Keep));
    assert!(matches!(
        run_reporter(answered(500, Some(true))),
        BatchFate::KeepWarning(m) if m == "[telemetry] 上报失败: HTTP s"
    ));
    assert!(matches!(
        run_reporter(ReportOutcome::NotSent("e".to_string())),
        BatchFate::KeepWarning(m) if m == "[telemetry] 上报失败: e"
    ));
}

#[test]
fn events_have_an_identity_and_a_time() {
    let data = || Json::parse(r#"{"k":[1,null,"x"]}"#).unwrap();
    let a = UsageEvent::new("t", data(), "s", "linux");
    let b = UsageEvent::new("t", data(), "s", "linux");
    assert_ne!(a.event_id, b.event_id);
    assert_eq!(a.event_id.len(), 36);
    assert!(a.client_time.ends_with("+00:00"));
    assert_eq!(a.event_version, 1);
    assert_eq!(a.app_version, "0.3.16");
    let json = a.to_json();
    assert_eq!(json.text("eventType"), Some("t"));
    assert_eq!(json.text("sessionId"), Some("s"));
    assert_eq!(json.text("platform"), Some("linux"));
    assert_eq!(json.unsigned("eventVersion"), Some(1));
    let items = json.get("eventData").unwrap().get("k").unwrap().items().unwrap();
    assert_eq!(items.len(), 3);
}
