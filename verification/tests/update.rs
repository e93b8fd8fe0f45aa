use chmlfrp_toolbox_daemon::commands::command_line::{build_escalated_cmd, CommandLine, RunOutcome};
use chmlfrp_toolbox_daemon::commands::daemon_update::{
    check_update, get_current_version, get_update_settings, handle_update_notification,
    perform_update, set_auto_update, NotificationAction, SetAutoUpdateParams, Update, UpdateEffect,
    UpdateEvent, UpdateInfo, UpdateStage,
};
use chmlfrp_toolbox_daemon::commands::manual_install::{
    dest_candidates, manual_install_deb, ManualAction, ManualEvent, ManualInstall,
};
use chmlfrp_toolbox_daemon::commands::packages::{
    arch_key_for, binary_places, detect_preferred_format, select_package, version_gt,
};
use chmlfrp_toolbox_daemon::commands::RpcError;
use chmlfrp_toolbox_daemon::digest::StreamDigest;
use chmlfrp_toolbox_daemon::http::HttpReply;
use chmlfrp_toolbox_daemon::json::Json;

fn json(text: &str) -> Json {
    Json::parse(text).unwrap()
}

fn sample_packages() -> Vec<Json> {
    vec![
        json(r#"{ "format": "deb", "arch": "x64", "url": "https://x64.deb", "sha256": "hash-x64-deb" }"#),
        json(r#"{ "format": "deb", "arch": "arm64", "url": "https://arm64.deb", "sha256": "hash-arm64-deb" }"#),
        json(r#"{ "format": "rpm", "arch": "x64", "url": "https://x64.rpm", "sha256": "hash-x64-rpm" }"#),
        json(r#"{ "format": "rpm", "arch": "arm64", "url": "https://arm64.rpm", "sha256": "hash-arm64-rpm" }"#),
    ]
}

#[test]
fn maps_supported_architectures_only() {
    assert_eq!(arch_key_for("x86_64"), Some("x64"));
    assert_eq!(arch_key_for("aarch64"), Some("arm64"));
    assert_eq!(arch_key_for("riscv64"), None);
    assert_eq!(arch_key_for("mips"), None);
}

#[test]
fn selects_exact_arch_and_format_package() {
    let packages = sample_packages();
    assert_eq!(
        select_package(&packages, "x64", "deb").unwrap(),
        ("https://x64.deb".to_string(), "hash-x64-deb".to_string())
    );
    assert_eq!(
        select_package(&packages, "arm64", "rpm").unwrap(),
        ("https://arm64.rpm".to_string(), "hash-arm64-rpm".to_string())
    );
}

#[test]
fn never_falls_back_across_arch_or_format() {
    let packages = sample_packages();
    assert!(select_package(&packages, "x64", "rpm").is_some());
    let deb_only: Vec<Json> = vec![json(
        r#"{ "format": "deb", "arch": "x64", "url": "https://x64.deb", "sha256": "hash" }"#,
    )];
    assert!(select_package(&deb_only, "x64", "rpm").is_none());
    let arm_only: Vec<Json> = vec![json(
        r#"{ "format": "deb", "arch": "arm64", "url": "https://arm64.deb", "sha256": "hash" }"#,
    )];
    assert!(select_package(&arm_only, "x64", "deb").is_none());
}

#[test]
fn skips_packages_missing_url_or_format() {
    let packages = vec![
        json(r#"{ "format": "deb", "arch": "x64" }"#),
        json(r#"{ "format": "rpm", "arch": "x64", "url": "", "sha256": "hash" }"#),
        json(r#"{ "format": "deb", "arch": "x64", "url": "https://ok.deb", "sha256": "ok" }"#),
    ];
    assert_eq!(
        select_package(&packages, "x64", "deb").unwrap(),
        ("https://ok.deb".to_string(), "ok".to_string())
    );
}

#[test]
fn package_without_arch_or_hash() {
    let packages = vec![json(r#"{ "format": "deb", "url": "u" }"#)];
    assert_eq!(select_package(&packages, "", "deb").unwrap(), ("u".to_string(), String::new()));
    assert!(select_package(&packages, "x64", "deb").is_none());
}

#[test]
fn dpkg_comes_before_rpm() {
    assert_eq!(detect_preferred_format(true, true), Some("deb"));
    assert_eq!(detect_preferred_format(false, true), Some("rpm"));
    assert_eq!(detect_preferred_format(false, false), None);
}

#[test]
fn programs_are_looked_for_along_the_path() {
    assert_eq!(
        binary_places("/usr/bin::/bin/:", "dpkg"),
        vec!["/usr/bin/dpkg".to_string(), "/bin/dpkg".to_string()]
    );
    assert!(binary_places("", "dpkg").is_empty());
}

#[test]
fn versions_are_compared_number_by_number() {
    assert!(version_gt("0.3.17", "0.3.16"));
    assert!(version_gt("0.10.0", "0.9.9"));
    assert!(version_gt("1", "0.9.9"));
    assert!(version_gt("0.3.16.1", "0.3.16"));
    assert!(!version_gt("0.3.16", "0.3.16"));
    assert!(!version_gt("0.3.16.0", "0.3.16"));
    assert!(!version_gt("0.3.15", "0.3.16"));
    assert!(!version_gt("", "0.0.1"));
    assert!(version_gt("1.x.3", "1.2"));
    assert!(!version_gt("v1.0.0", "0.3.16"));
    assert!(!version_gt("1.4294967296", "1.0"));
}

#[test]
fn versions_are_equal_up_to_zeros() {
    for (a, b) in [("1.2", "1.2.0.0"), ("", "0"), ("1.x.2", "1.2")] {
        assert!(!version_gt(a, b) && !version_gt(b, a));
    }
    assert!(version_gt("1.2.0.1", "1.2"));
}

#[test]
fn version_order_is_strict() {
    let versions = ["0.9", "0.10", "0.10.1", "1"];
    for (i, a) in versions.iter().enumerate() {
        for (j, b) in versions.iter().enumerate() {
            assert_eq!(version_gt(a, b), i > j);
        }
    }
}

fn strings(parts: &[&str]) -> Vec<String> {
    parts.iter().map(|p| p.to_string()).collect()
}

fn call(c: CommandLine) -> (String, Vec<String>) {
    (c.program, c.args)
}

#[test]
fn commands_run_as_root() {
    let args = strings(&["-i", "p.deb"]);
    assert_eq!(
        call(build_escalated_cmd("dpkg", &args, true, true)),
        ("systemd-run".to_string(), strings(&["--wait", "--pipe", "--quiet", "dpkg", "-i", "p.deb"]))
    );
    assert_eq!(
        call(build_escalated_cmd("dpkg", &args, false, true)),
        (
            "sudo".to_string(),
            strings(&["-n", "systemd-run", "--wait", "--pipe", "--quiet", "dpkg", "-i", "p.deb"])
        )
    );
    assert_eq!(
        call(build_escalated_cmd("dpkg", &args, true, false)),
        ("dpkg".to_string(), strings(&["-i", "p.deb"]))
    );
    assert_eq!(
        call(build_escalated_cmd("dpkg", &args, false, false)),
        ("sudo".to_string(), strings(&["-n", "dpkg", "-i", "p.deb"]))
    );
}

fn raw(code: u16, status: &str, body: &str) -> Result<HttpReply, String> {
    Ok(HttpReply { code, status: status.to_string(), body: Ok(body.as_bytes().to_vec()) })
}

#[test]
fn offers_are_read() {
    let body = r#"{"version":"9.0.0","name":"n","releaseNotes":"r","releaseDate":"d","platforms":{"linux":[
        {"format":"deb","arch":"x64","url":"https://x64.deb","sha256":"h"},
        {"format":"rpm","arch":"arm64","url":"https://arm64.rpm","sha256":"g"}]}}"#;
    let info = check_update(raw(200, "200 OK", body), "x86_64", true, false).unwrap();
    assert_eq!(info.current_version, "0.3.16");
    assert_eq!(info.latest_version, "9.0.0");
    assert_eq!(info.download_url, "https://x64.deb");
    assert!(info.has_update);
    let answer = info.to_json();
    assert_eq!(answer.flag("success"), Some(true));
    assert_eq!(answer.text("releaseName"), Some("n"));
    assert_eq!(answer.text("releaseNotes"), Some("r"));
    assert_eq!(answer.text("publishedAt"), Some("d"));
    assert_eq!(answer.text("sha256"), Some("h"));
    assert_eq!(answer.text("packageFormat"), Some("deb"));
    assert_eq!(answer.flag("packageAvailable"), Some(true));
    assert_eq!(answer.flag("hasUpdate"), Some(true));
    let other = check_update(raw(200, "200 OK", body), "aarch64", true, true).unwrap();
    assert_eq!(other.download_url, "");
    assert_eq!(other.to_json().flag("packageAvailable"), Some(false));
}

#[test]
fn offers_are_refused() {
    let code = |e: RpcError| (e.code, e.message);
    assert_eq!(
        code(check_update(Err("e".to_string()), "x86_64", true, true).unwrap_err()),
        ("FETCH_UPDATE_FAILED".to_string(), "获取更新信息失败: e".to_string())
    );
    assert_eq!(
        code(check_update(raw(503, "503 Service Unavailable", "x"), "x86_64", true, true).unwrap_err()),
        ("FETCH_UPDATE_FAILED".to_string(), "更新服务返回: 503 Service Unavailable".to_string())
    );
    assert_eq!(
        code(check_update(raw(200, "200 OK", "x"), "x86_64", true, true).unwrap_err()),
        ("PARSE_UPDATE_FAILED".to_string(), "error decoding response body".to_string())
    );
    assert_eq!(
        code(check_update(raw(200, "200 OK", "{}"), "mips", true, true).unwrap_err()),
        (
            "UNSUPPORTED_ARCH".to_string(),
            "不支持的 CPU 架构: mips，请使用安装脚本手动更新".to_string()
        )
    );
    assert_eq!(
        check_update(raw(200, "200 OK", "{}"), "x86_64", false, false).unwrap_err().code,
        "UNSUPPORTED_PACKAGE_MANAGER"
    );
    let info = check_update(raw(200, "200 OK", "{}"), "x86_64", true, true).unwrap();
    assert!(!info.has_update);
}

fn info(url: &str, sha: &str, has_update: bool) -> UpdateInfo {
    UpdateInfo {
        current_version: "0.3.16".to_string(),
        latest_version: "9.0.0".to_string(),
        release_name: String::new(),
        release_notes: String::new(),
        published_at: String::new(),
        download_url: url.to_string(),
        sha256: sha.to_string(),
        package_format: "deb".to_string(),
        has_update,
    }
}

fn start() -> Update {
    let (update, effects) = perform_update(false, "/data//", false).unwrap();
    assert!(matches!(&effects[0], UpdateEffect::Note(5, t) if t == "正在检查版本信息..."));
    assert!(matches!(effects[1], UpdateEffect::Check));
    update
}

fn downloading(url: &str, sha: &str) -> Update {
    let mut update = start();
    let effects = update.advance(UpdateEvent::Checked(Ok(info(url, sha, true))));
    assert_eq!(effects.len(), 3);
    update
}

fn last_error(effects: &[UpdateEffect]) -> (String, String) {
    match effects.last() {
        Some(UpdateEffect::Fail(e)) => (e.code.clone(), e.message.clone()),
        _ => panic!("no error"),
    }
}

fn removes(effects: &[UpdateEffect]) -> bool {
    effects.iter().any(|e| matches!(e, UpdateEffect::RemovePackage(_)))
}

#[test]
fn second_update_is_refused() {
    let error = perform_update(true, "/data", true).unwrap_err();
    assert_eq!(error.code, "UPDATE_IN_PROGRESS");
    assert_eq!(error.message, "已有更新任务正在执行，请等待其完成后再试");
}

#[test]
fn nothing_to_update() {
    let mut update = start();
    let effects = update.advance(UpdateEvent::Checked(Ok(info("u.deb", "", false))));
    assert!(matches!(&effects[0], UpdateEffect::Note(100, _)));
    assert!(matches!(&effects[1], UpdateEffect::Finish(j) if j.flag("success") == Some(false)));
    let mut update = start();
    let effects = update.advance(UpdateEvent::Checked(Ok(info("", "", true))));
    assert_eq!(last_error(&effects).0, "NO_DOWNLOAD_URL");
    let mut update = start();
    let effects = update.advance(UpdateEvent::Checked(Err(RpcError::new("X", "y".to_string()))));
    assert_eq!(last_error(&effects), ("X".to_string(), "y".to_string()));
}

#[test]
fn download_goes_to_the_data_directory() {
    let mut update = start();
    let effects = update.advance(UpdateEvent::Checked(Ok(info("https://h/x.rpm", "", true))));
    assert!(matches!(&effects[0], UpdateEffect::Note(10, t) if t == "发现新版本 v9.0.0，准备下载..."));
    assert!(matches!(&effects[1], UpdateEffect::Note(15, t) if t == "正在下载 rpm 安装包..."));
    match &effects[2] {
        UpdateEffect::Download { dir, url, path } => {
            assert_eq!(dir, "/data/updates");
            assert_eq!(url, "https://h/x.rpm");
            assert_eq!(path, "/data/updates/chmlfrp-toolbox-daemon_update.rpm");
        }
        _ => panic!("no download"),
    }
}

#[test]
fn wrong_hash_is_never_installed() {
    let mut update = downloading("x.deb", "aa");
    let effects = update.advance(UpdateEvent::Downloaded(Ok((2048, "bb".to_string()))));
    assert!(removes(&effects));
    assert!(matches!(&effects[0], UpdateEffect::Note(55, t) if t == "下载完成，大小: 2 KB"));
    assert_eq!(
        last_error(&effects),
        ("SHA256_MISMATCH".to_string(), "SHA-256 校验失败: 期望 aa，实际 bb".to_string())
    );
    assert_eq!(update.stage, UpdateStage::Over);
}

#[test]
fn update_waits_for_its_events() {
    let update = downloading("x.deb", "aa");
    assert!(update.awaits(&UpdateEvent::Downloaded(Err("e".to_string()))));
    assert!(!update.awaits(&UpdateEvent::Helper(true)));
    let m = manual();
    assert!(m.awaits(&ManualEvent::Prepared(Ok(()))));
    assert!(!m.awaits(&ManualEvent::Looked(true, None)));
}

#[test]
fn failed_download_ends_the_update() {
    let mut update = downloading("x.deb", "aa");
    let effects = update.advance(UpdateEvent::Downloaded(Err("下载返回: 404".to_string())));
    assert_eq!(last_error(&effects), ("DOWNLOAD_FAILED".to_string(), "下载返回: 404".to_string()));
}

#[test]
fn download_is_hashed() {
    let mut update = downloading(
        "x.deb",
        "ba7816bf8f01cfea414140de5dae2223b00361a396177a9cb410ff61f20015ad",
    );
    let mut digest = StreamDigest::new();
    digest.feed(b"a");
    digest.feed(b"bc");
    let effects = update.verify_download(digest);
    assert!(matches!(effects.last(), Some(UpdateEffect::LookForHelper(_))));
    assert_eq!(update.stage, UpdateStage::Helper);
    let mut update = downloading("x.deb", "ba7816bf");
    let mut digest = StreamDigest::new();
    digest.feed(b"abc");
    assert_eq!(last_error(&update.verify_download(digest)).0, "SHA256_MISMATCH");
}

fn verified(url: &str, sha: &str) -> Update {
    let mut update = downloading(url, sha);
    let actual = if sha.is_empty() { "found" } else { sha };
    let effects = update.advance(UpdateEvent::Downloaded(Ok((1, actual.to_string()))));
    assert!(matches!(
        effects.last(),
        Some(UpdateEffect::LookForHelper(p)) if p == "/usr/lib/chmlfrp-toolbox-daemon/secure-update-helper.sh"
    ));
    update
}

fn ran(success: bool, stderr: &str) -> UpdateEvent {
    UpdateEvent::Ran(RunOutcome::Ended { success, stderr: stderr.to_string() })
}

fn run_of(effects: &[UpdateEffect]) -> (String, Vec<String>) {
    match effects.last() {
        Some(UpdateEffect::Run(c)) => (c.program.clone(), c.args.clone()),
        Some(UpdateEffect::RunAndLookFor(c, _)) => (c.program.clone(), c.args.clone()),
        Some(UpdateEffect::Restart(c)) => (c.program.clone(), c.args.clone()),
        _ => panic!("nothing is run"),
    }
}

#[test]
fn helper_installs_where_it_is_there() {
    let mut update = verified("x.deb", "");
    let effects = update.advance(UpdateEvent::Helper(true));
    assert_eq!(
        run_of(&effects),
        (
            "/usr/lib/chmlfrp-toolbox-daemon/secure-update-helper.sh".to_string(),
            strings(&["/data/updates/chmlfrp-toolbox-daemon_update.deb", "found"])
        )
    );
    let effects = update.advance(ran(true, ""));
    assert!(matches!(&effects[0], UpdateEffect::RemovePackage(_)));
    assert_eq!(
        run_of(&effects),
        (
            "sh".to_string(),
            strings(&["-c", "sleep 1; sudo -n systemctl daemon-reload 2>/dev/null; sudo -n systemctl restart chmlfrp-toolbox-daemon"])
        )
    );
    let effects = update.advance(UpdateEvent::Restarted(Ok(())));
    match effects.last() {
        Some(UpdateEffect::Finish(j)) => {
            assert_eq!(j.flag("success"), Some(true));
            assert_eq!(j.text("message"), Some("已更新到 v9.0.0，服务正在重启..."));
            assert_eq!(j.text("newVersion"), Some("9.0.0"));
        }
        _ => panic!("no answer"),
    }
}

#[test]
fn helper_is_told_the_promised_hash() {
    let mut update = verified("x.deb", "promised");
    let effects = update.advance(UpdateEvent::Helper(true));
    assert_eq!(run_of(&effects).1[1], "promised");
    let effects = update.advance(ran(false, " no \n"));
    assert!(removes(&effects));
    assert_eq!(
        last_error(&effects),
        ("INSTALL_FAILED".to_string(), "安全更新助手安装失败: no".to_string())
    );
    let mut update = verified("x.deb", "promised");
    update.advance(UpdateEvent::Helper(true));
    let effects = update.advance(UpdateEvent::Ran(RunOutcome::NotRun("e".to_string())));
    assert_eq!(last_error(&effects).1, "执行安全更新助手失败: e");
}

#[test]
fn rpm_failure_is_final() {
    let mut update = verified("x.rpm", "");
    let effects = update.advance(UpdateEvent::Helper(false));
    assert_eq!(
        run_of(&effects),
        (
            "rpm".to_string(),
            strings(&["-U", "--force", "/data/updates/chmlfrp-toolbox-daemon_update.rpm"])
        )
    );
    let effects = update.advance(ran(false, "bad\n"));
    assert!(removes(&effects));
    assert_eq!(last_error(&effects).1, "rpm 安装失败: bad\n");
}

#[test]
fn deb_failure_is_repaired_or_replaced() {
    let mut update = verified("x.deb", "");
    let effects = update.advance(UpdateEvent::Helper(false));
    assert_eq!(
        run_of(&effects),
        ("dpkg".to_string(), strings(&["-i", "/data/updates/chmlfrp-toolbox-daemon_update.deb"]))
    );
    let effects = update.advance(ran(false, " broken \n"));
    assert_eq!(run_of(&effects), ("apt-get".to_string(), strings(&["install", "-f", "-y"])));
    let effects = update.advance(UpdateEvent::Repaired { success: true, present: false });
    match effects.last() {
        Some(UpdateEffect::ManualInstall { pkg_path, updates_dir }) => {
            assert_eq!(pkg_path, "/data/updates/chmlfrp-toolbox-daemon_update.deb");
            assert_eq!(updates_dir, "/data/updates");
        }
        _ => panic!("not replaced"),
    }
    let effects = update.advance(UpdateEvent::Replaced(Err("m".to_string())));
    assert!(removes(&effects));
    assert_eq!(
        last_error(&effects),
        ("INSTALL_FAILED".to_string(), "dpkg 安装失败（broken）且降级安装失败: m".to_string())
    );

    let mut update = verified("x.deb", "");
    update.advance(UpdateEvent::Helper(false));
    update.advance(ran(false, "broken"));
    let effects = update.advance(UpdateEvent::Repaired { success: true, present: true });
    assert_eq!(run_of(&effects).0, "sh");

    let mut update = verified("x.deb", "");
    update.advance(UpdateEvent::Helper(false));
    update.advance(ran(false, "broken"));
    update.advance(UpdateEvent::Repaired { success: false, present: true });
    let effects = update.advance(UpdateEvent::Replaced(Ok(())));
    assert!(matches!(&effects[0], UpdateEffect::Note(85, t) if t == "降级安装成功"));
    assert_eq!(run_of(&effects).0, "sh");
    let effects = update.advance(UpdateEvent::Restarted(Err("e".to_string())));
    assert_eq!(
        last_error(&effects),
        ("RESTART_FAILED".to_string(), "启动重启进程失败: e".to_string())
    );
}

#[test]
fn package_manager_that_cannot_run_is_an_error() {
    let mut update = verified("x.deb", "");
    update.advance(UpdateEvent::Helper(false));
    let effects = update.advance(UpdateEvent::Ran(RunOutcome::NotRun("e".to_string())));
    assert_eq!(last_error(&effects).1, "执行安装命令失败: e");
}

#[test]
fn program_is_replaced_where_it_runs() {
    assert_eq!(
        dest_candidates(None),
        strings(&["/usr/bin/chmlfrp-toolbox-daemon", "/usr/local/bin/chmlfrp-toolbox-daemon"])
    );
    assert_eq!(
        dest_candidates(Some("/usr/local/bin/chmlfrp-toolbox-daemon")),
        strings(&["/usr/local/bin/chmlfrp-toolbox-daemon", "/usr/bin/chmlfrp-toolbox-daemon"])
    );
    assert_eq!(
        dest_candidates(Some("/usr/bin/chmlfrp-toolbox-daemon")),
        strings(&["/usr/bin/chmlfrp-toolbox-daemon", "/usr/local/bin/chmlfrp-toolbox-daemon"])
    );
    assert_eq!(
        dest_candidates(Some("/opt/chmlfrp-toolbox-daemon")),
        strings(&[
            "/opt/chmlfrp-toolbox-daemon",
            "/usr/bin/chmlfrp-toolbox-daemon",
            "/usr/local/bin/chmlfrp-toolbox-daemon"
        ])
    );
    assert_eq!(dest_candidates(Some("/opt/other")).len(), 2);
}

fn manual() -> ManualInstall {
    let (manual, action) = manual_install_deb("/d/p.deb", "/d");
    assert!(matches!(action, ManualAction::Prepare(p) if p == "/d/extract"));
    manual
}

fn manual_ran(success: bool, stderr: &str) -> ManualEvent {
    ManualEvent::Ran(RunOutcome::Ended { success, stderr: stderr.to_string() })
}

#[test]
fn replacement_tries_one_place_after_the_other() {
    let mut m = manual();
    match m.advance(ManualEvent::Prepared(Ok(()))) {
        ManualAction::Run(c) => {
            assert_eq!(call(c), ("dpkg-deb".to_string(), strings(&["-x", "/d/p.deb", "/d/extract"])))
        }
        _ => panic!("not unpacked"),
    }
    assert!(matches!(
        m.advance(manual_ran(true, "")),
        ManualAction::Look(p) if p == "/d/extract/usr/bin/chmlfrp-toolbox-daemon"
    ));
    match m.advance(ManualEvent::Looked(true, None)) {
        ManualAction::RunAsRoot(c) => assert_eq!(
            call(c),
            (
                "install".to_string(),
                strings(&[
                    "-m",
                    "755",
                    "/d/extract/usr/bin/chmlfrp-toolbox-daemon",
                    "/usr/bin/chmlfrp-toolbox-daemon"
                ])
            )
        ),
        _ => panic!("not copied"),
    }
    match m.advance(manual_ran(false, "ro")) {
        ManualAction::RunAsRoot(c) => assert_eq!(c.args[3], "/usr/local/bin/chmlfrp-toolbox-daemon"),
        _ => panic!("not tried again"),
    }
    assert!(matches!(
        m.advance(ManualEvent::Ran(RunOutcome::NotRun("e".to_string()))),
        ManualAction::Done(true, Err(t))
            if t == "降级安装失败：写入 /usr/local/bin/chmlfrp-toolbox-daemon 失败: e（sudoers 可能缺少 systemd-run install 规则，请重新运行安装脚本）"
    ));
    let mut m = manual();
    m.advance(ManualEvent::Prepared(Ok(())));
    m.advance(manual_ran(true, ""));
    m.advance(ManualEvent::Looked(true, Some("/opt/chmlfrp-toolbox-daemon".to_string())));
    assert!(matches!(m.advance(manual_ran(true, "")), ManualAction::Done(true, Ok(()))));
}

#[test]
fn replacement_fails_early() {
    let mut m = manual();
    assert!(matches!(
        m.advance(ManualEvent::Prepared(Err("e".to_string()))),
        ManualAction::Done(false, Err(t)) if t == "创建解压目录失败: e"
    ));
    let mut m = manual();
    m.advance(ManualEvent::Prepared(Ok(())));
    assert!(matches!(
        m.advance(manual_ran(false, "e")),
        ManualAction::Done(false, Err(t)) if t == "dpkg-deb 解包失败: e"
    ));
    let mut m = manual();
    m.advance(ManualEvent::Prepared(Ok(())));
    assert!(matches!(
        m.advance(ManualEvent::Ran(RunOutcome::NotRun("e".to_string()))),
        ManualAction::Done(false, Err(t)) if t == "执行 dpkg-deb 失败: e"
    ));
    let mut m = manual();
    m.advance(ManualEvent::Prepared(Ok(())));
    m.advance(manual_ran(true, ""));
    assert!(matches!(
        m.advance(ManualEvent::Looked(false, None)),
        ManualAction::Done(false, Err(t)) if t == "deb 包中未找到二进制文件 usr/bin/chmlfrp-toolbox-daemon"
    ));
}

#[test]
fn settings_are_answered() {
    let answer = get_update_settings(true);
    assert_eq!(answer.flag("autoUpdate"), Some(true));
    assert_eq!(answer.text("currentVersion"), Some("0.3.16"));
    assert_eq!(get_current_version(), "0.3.16");
    let on = set_auto_update(SetAutoUpdateParams { enabled: true }, Ok(())).unwrap();
    assert_eq!(on.text("message"), Some("已开启自动更新"));
    let off = set_auto_update(SetAutoUpdateParams { enabled: false }, Ok(())).unwrap();
    assert_eq!(off.text("message"), Some("已关闭自动更新"));
    let error = set_auto_update(SetAutoUpdateParams { enabled: true }, Err("e".to_string())).unwrap_err();
    assert_eq!((error.code.as_str(), error.message.as_str()), ("CONFIG_SAVE_FAILED", "e"));
}

#[test]
fn notification_updates_only_where_that_is_on() {
    assert_eq!(handle_update_notification(true), NotificationAction::Perform);
    assert_eq!(handle_update_notification(false), NotificationAction::Ignore);
}
