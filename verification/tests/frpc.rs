use chmlfrp_toolbox_daemon::digest::{hex_text, sha256_hex, StreamDigest};
use chmlfrp_toolbox_daemon::frpc::{
    check_download, ensure_frpc, existing_system_frpc, linux_platform, managed_frpc_path, read_info,
    select_download, system_places, which_path, FrpcAction, FrpcDownload, FrpcEvent, FrpcFinder,
    FrpcInfoData, FrpcInfoResponse, InfoReply,
};

#[test]
fn maps_supported_linux_architectures() {
    assert_eq!(linux_platform("x86_64"), Some("linux_amd64"));
    assert_eq!(linux_platform("aarch64"), Some("linux_arm64"));
    assert_eq!(linux_platform("arm"), Some("linux_arm"));
    assert_eq!(linux_platform("mips"), None);
}

#[test]
fn maps_32_bit_intel() {
    assert_eq!(linux_platform("x86"), Some("linux_386"));
}

#[test]
fn stores_frpc_under_daemon_data_directory() {
    assert_eq!(
        managed_frpc_path("/var/lib/chmlfrp-toolbox-daemon"),
        "/var/lib/chmlfrp-toolbox-daemon/bin/frpc"
    );
}

fn downloads() -> Vec<FrpcDownload> {
    vec![
        FrpcDownload {
            hash: "arm-hash".to_string(),
            platform: "linux_arm64".to_string(),
            link: "https://example.com/arm64".to_string(),
            size: 10,
        },
        FrpcDownload {
            hash: "amd-hash".to_string(),
            platform: "linux_amd64".to_string(),
            link: "https://example.com/amd64".to_string(),
            size: 20,
        },
    ]
}

#[test]
fn selects_matching_platform_download() {
    let downloads = downloads();
    let selected = select_download(&downloads, "linux_amd64").expect("应匹配下载项");
    assert_eq!(selected.link, "https://example.com/amd64");
    assert_eq!(selected.hash, "amd-hash");
    assert_eq!(selected.size, 20);
}

#[test]
fn no_download_for_another_platform() {
    assert!(select_download(&downloads(), "linux_386").is_none());
}

#[test]
fn installed_frpc_is_found_in_order() {
    assert_eq!(system_places(), vec!["/usr/local/bin/frpc", "/usr/bin/frpc", "/opt/frpc/frpc"]);
    let found = Some("/home/frpc".to_string());
    assert_eq!(
        existing_system_frpc(&vec![false, true, true], found.clone()),
        Some("/usr/bin/frpc".to_string())
    );
    assert_eq!(existing_system_frpc(&vec![false, false, false], found.clone()), found);
    assert_eq!(existing_system_frpc(&vec![false, false, false], None), None);
    assert_eq!(which_path(true, "/x/frpc\n"), Some("/x/frpc".to_string()));
    assert_eq!(which_path(false, "/x/frpc\n"), None);
}

fn promised(hash: &str, size: u64) -> FrpcDownload {
    FrpcDownload {
        hash: hash.to_string(),
        platform: "p".to_string(),
        link: "l".to_string(),
        size,
    }
}

#[test]
fn downloads_are_checked() {
    assert_eq!(check_download(&promised("AB", 3), 3, "ab"), Ok(()));
    assert_eq!(check_download(&promised("", 0), 3, "ab"), Ok(()));
    assert_eq!(check_download(&promised("", 0), 0, "ab").unwrap_err(), "下载 frpc 失败: 未收到数据");
    assert_eq!(
        check_download(&promised("", 4), 3, "ab").unwrap_err(),
        "frpc 文件大小校验失败: 期望 4，实际 3"
    );
    assert_eq!(
        check_download(&promised("cd", 3), 3, "ab").unwrap_err(),
        "frpc SHA-256 校验失败: 期望 cd，实际 ab"
    );
}

fn info(code: u32, state: &str) -> Result<InfoReply, String> {
    Ok(InfoReply {
        code: 200,
        status: "200 OK".to_string(),
        info: Ok(FrpcInfoResponse {
            msg: "m".to_string(),
            state: state.to_string(),
            code,
            data: FrpcInfoData { downloads: downloads() },
        }),
    })
}

#[test]
fn lists_of_downloads_are_read() {
    assert_eq!(read_info(info(200, "success"), "linux_arm64").unwrap().size, 10);
    assert_eq!(
        read_info(info(200, "success"), "linux_386").unwrap_err(),
        "未找到当前平台的 frpc 下载项: linux_386"
    );
    assert_eq!(read_info(info(500, "success"), "x").unwrap_err(), "frpc 下载接口返回错误: m");
    assert_eq!(read_info(info(200, "error"), "x").unwrap_err(), "frpc 下载接口返回错误: m");
    assert_eq!(read_info(Err("e".to_string()), "x").unwrap_err(), "获取 frpc 下载信息失败: e");
    let refused = InfoReply { code: 404, status: "404 Not Found".to_string(), info: Err("e".to_string()) };
    assert_eq!(
        read_info(Ok(refused), "x").unwrap_err(),
        "获取 frpc 下载信息失败: HTTP 404 Not Found"
    );
    let broken = InfoReply { code: 200, status: "200 OK".to_string(), info: Err("e".to_string()) };
    assert_eq!(read_info(Ok(broken), "x").unwrap_err(), "解析 frpc 下载信息失败: e");
}

fn looked(managed: bool, system: Option<&str>) -> FrpcEvent {
    FrpcEvent::Looked { managed, system: system.map(|s| s.to_string()) }
}

#[test]
fn finder_waits_for_its_events() {
    let (finder, _) = ensure_frpc("/d", "x86_64");
    assert!(finder.awaits(&looked(true, None)));
    assert!(!finder.awaits(&FrpcEvent::Done(Ok(()))));
}

#[test]
fn existing_frpc_is_reused() {
    let (mut finder, action) = ensure_frpc("/d", "x86_64");
    assert!(matches!(action, FrpcAction::Look));
    assert!(matches!(
        finder.advance(looked(true, Some("/usr/bin/frpc"))),
        FrpcAction::MakeExecutable(p) if p == "/d/bin/frpc"
    ));
    assert!(matches!(finder.advance(FrpcEvent::Done(Ok(()))), FrpcAction::Ready(p) if p == "/d/bin/frpc"));
    let (mut finder, _) = ensure_frpc("/d", "mips");
    assert!(matches!(
        finder.advance(looked(false, Some("/usr/bin/frpc"))),
        FrpcAction::Ready(p) if p == "/usr/bin/frpc"
    ));
    let (mut finder, _) = ensure_frpc("/d", "mips");
    assert!(matches!(
        finder.advance(looked(false, None)),
        FrpcAction::Fail(None, e) if e == "当前架构不支持自动下载 frpc: mips"
    ));
}

fn downloading() -> FrpcFinder {
    let (mut finder, _) = ensure_frpc("/d", "x86_64");
    assert!(matches!(finder.advance(looked(false, None)), FrpcAction::FetchInfo));
    assert!(matches!(
        finder.advance(FrpcEvent::Info(info(200, "success"))),
        FrpcAction::MakeDir(p) if p == "/d/bin"
    ));
    match finder.advance(FrpcEvent::Done(Ok(()))) {
        FrpcAction::Download(link, path) => {
            assert_eq!(link, "https://example.com/amd64");
            assert_eq!(path, "/d/bin/frpc.download");
        }
        _ => panic!("no download"),
    }
    finder
}

#[test]
fn verified_download_is_put_in_place() {
    let mut finder = downloading();
    let action = finder.advance(FrpcEvent::Downloaded(Ok((20, "AMD-HASH".to_string()))));
    assert!(matches!(action, FrpcAction::MakeExecutable(p) if p == "/d/bin/frpc.download"));
    assert!(matches!(finder.advance(FrpcEvent::Done(Ok(()))), FrpcAction::RemoveOld(p) if p == "/d/bin/frpc"));
    match finder.advance(FrpcEvent::Done(Ok(()))) {
        FrpcAction::Rename(from, to) => {
            assert_eq!((from.as_str(), to.as_str()), ("/d/bin/frpc.download", "/d/bin/frpc"))
        }
        _ => panic!("not renamed"),
    }
    assert!(matches!(finder.advance(FrpcEvent::Done(Ok(()))), FrpcAction::Ready(p) if p == "/d/bin/frpc"));
}

#[test]
fn bad_download_leaves_nothing() {
    let mut finder = downloading();
    let mut digest = StreamDigest::new();
    digest.feed(&[0u8; 20]);
    assert_eq!(digest.len(), 20);
    match finder.verify_download(digest) {
        FrpcAction::Fail(Some(path), error) => {
            assert_eq!(path, "/d/bin/frpc.download");
            assert!(error.starts_with("frpc SHA-256 校验失败: 期望 amd-hash，实际 "));
            assert_eq!(error.len(), "frpc SHA-256 校验失败: 期望 amd-hash，实际 ".len() + 64);
        }
        _ => panic!("accepted"),
    }
    let mut finder = downloading();
    assert!(matches!(
        finder.advance(FrpcEvent::Downloaded(Err("下载 frpc 失败: HTTP 404".to_string()))),
        FrpcAction::Fail(Some(_), e) if e == "下载 frpc 失败: HTTP 404"
    ));
}

#[test]
fn trouble_with_files_is_named() {
    let trouble = || FrpcEvent::Done(Err("e".to_string()));
    let message = |action: FrpcAction| match action {
        FrpcAction::Fail(None, e) => e,
        _ => panic!("no error"),
    };
    let (mut finder, _) = ensure_frpc("/d", "x86_64");
    finder.advance(looked(true, None));
    assert_eq!(message(finder.advance(trouble())), "设置 frpc 执行权限失败: e");
    let (mut finder, _) = ensure_frpc("/d", "x86_64");
    finder.advance(looked(false, None));
    finder.advance(FrpcEvent::Info(info(200, "success")));
    assert_eq!(message(finder.advance(trouble())), "创建 frpc 保存目录失败: e");
    let mut finder = downloading();
    finder.advance(FrpcEvent::Downloaded(Ok((20, "amd-hash".to_string()))));
    finder.advance(FrpcEvent::Done(Ok(())));
    assert_eq!(message(finder.advance(trouble())), "清理旧 frpc 失败: e");
    let mut finder = downloading();
    finder.advance(FrpcEvent::Downloaded(Ok((20, "amd-hash".to_string()))));
    finder.advance(FrpcEvent::Done(Ok(())));
    finder.advance(FrpcEvent::Done(Ok(())));
    assert_eq!(message(finder.advance(trouble())), "保存 frpc 失败: e");
    let (mut finder, _) = ensure_frpc("/d", "x86_64");
    finder.advance(looked(false, None));
    assert_eq!(
        message(finder.advance(FrpcEvent::Info(Err("e".to_string())))),
        "获取 frpc 下载信息失败: e"
    );
}

#[test]
fn digests_do_not_depend_on_the_pieces() {
    let mut digest = StreamDigest::new();
    for piece in ["", "he", "llo ", "world"] {
        digest.feed(piece.as_bytes());
    }
    assert_eq!(digest.len(), 11);
    assert_eq!(digest.finish(), sha256_hex(b"hello world"));
    assert_eq!(
        sha256_hex(b"hello world"),
        "b94d27b9934d3e08a52e52d7da7dabfac484efe37a5380ee9088f7ace2efcde9"
    );
}

#[test]
fn hexadecimal_has_two_digits_a_byte() {
    assert_eq!(hex_text(&vec![0x00, 0x0f, 0xa0, 0xff]), "000fa0ff");
    assert_eq!(hex_text(&Vec::new()), "");
    assert_ne!(hex_text(&vec![1, 0x10]), hex_text(&vec![0x11, 0]));
}
