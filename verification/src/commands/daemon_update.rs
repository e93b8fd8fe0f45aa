//! Looking for and installing updates.
//!
//! [`check_update`] reads what the update service offers. [`Update`] decides, step by step, how an
//! offer is downloaded, verified, installed and brought into effect.
use super::command_line::{CommandLine, CommandView, OutcomeView, RunOutcome, command2, command3};
use super::packages::{
    arch_key, arch_key_for, detect_preferred_format, law_selected_package_suits, package_format,
    law_address_and_hash_are_of_one_package, law_first_difference_decides, law_known_architectures,
    law_version_is_read_as_its_numbers, number_words, package_from, package_suits, select_package,
    version, version_gt, version_larger, with_zeros,
};
use super::{RpcError, RpcErrorView, rpc_error};
use crate::digest::{StreamDigest, hex, sha256};
use crate::http::{
    HttpReply, JsonReply, ReplyView, decode_fetch, fetch_view, fetched, is_success, success_code,
};
use crate::json::{Json, JsonMember, JsonView, member, member_views};
use crate::text::{
    decimal, ends_with, finishes_with, push_decimal, same_text, strip_trailing, trim, trimmed,
    without_trailing,
};
use vstd::prelude::*;
use vstd::string::*;

verus! {

// ----- looking for an update -----

/// The address of the update service.
pub const UPDATE_API: &'static str = "https://u.zdzz.top/api/toolbox-daemon";

/// The name of the program.
pub const APP_NAME: &'static str = "chmlfrp-toolbox-daemon";

/// The version of this program.
pub fn get_current_version() -> (res: String)
    ensures
        res@ == "0.3.16"@,
{
    "0.3.16".to_owned()
}

/// What the update service offers.
#[derive(Debug)]
pub struct UpdateInfo {
    pub current_version: String,
    pub latest_version: String,
    pub release_name: String,
    pub release_notes: String,
    pub published_at: String,
    pub download_url: String,
    pub sha256: String,
    pub package_format: String,
    pub has_update: bool,
}

/// The model of [`UpdateInfo`].
pub struct UpdateInfoView {
    pub current_version: Seq<char>,
    pub latest_version: Seq<char>,
    pub release_name: Seq<char>,
    pub release_notes: Seq<char>,
    pub published_at: Seq<char>,
    pub download_url: Seq<char>,
    pub sha256: Seq<char>,
    pub package_format: Seq<char>,
    pub has_update: bool,
}

impl View for UpdateInfo {
    type V = UpdateInfoView;

    open spec fn view(&self) -> UpdateInfoView {
        UpdateInfoView {
            current_version: self.current_version@,
            latest_version: self.latest_version@,
            release_name: self.release_name@,
            release_notes: self.release_notes@,
            published_at: self.published_at@,
            download_url: self.download_url@,
            sha256: self.sha256@,
            package_format: self.package_format@,
            has_update: self.has_update,
        }
    }
}

/// The packages for Linux in what the update service offers.
pub open spec fn linux_packages(body: JsonView) -> Seq<JsonView> {
    match body.get("platforms"@) {
        Some(platforms) => match platforms.get("linux"@) {
            Some(linux) => match linux.items() {
                Some(items) => items,
                None => Seq::empty(),
            },
            None => Seq::empty(),
        },
        None => Seq::empty(),
    }
}

/// What a body offers to a machine of this architecture and package format.
pub open spec fn offer(
    body: JsonView,
    current: Seq<char>,
    arch: Seq<char>,
    format: Seq<char>,
) -> UpdateInfoView {
    let (url, hash) = match package_from(linux_packages(body), arch, format, 0) {
        Some(p) => p,
        None => (Seq::empty(), Seq::empty()),
    };
    UpdateInfoView {
        current_version: current,
        latest_version: body.text_or("version"@, ""@),
        release_name: body.text_or("name"@, ""@),
        release_notes: body.text_or("releaseNotes"@, ""@),
        published_at: body.text_or("releaseDate"@, ""@),
        download_url: url,
        sha256: hash,
        package_format: format,
        has_update: version_larger(version(body.text_or("version"@, ""@)), version(current)),
    }
}

/// What the reply of the update service offers to this machine, or the error.
pub open spec fn offered(
    reply: Result<ReplyView, Seq<char>>,
    current: Seq<char>,
    arch: Seq<char>,
    dpkg: bool,
    rpm: bool,
) -> Result<UpdateInfoView, RpcErrorView> {
    match reply {
        Err(e) => Err(rpc_error("FETCH_UPDATE_FAILED"@, "获取更新信息失败: "@ + e)),
        Ok(r) => if !success_code(r.code) {
            Err(rpc_error("FETCH_UPDATE_FAILED"@, "更新服务返回: "@ + r.status))
        } else {
            match r.body {
                Err(e) => Err(rpc_error("PARSE_UPDATE_FAILED"@, e)),
                Ok(body) => match arch_key(arch) {
                    None => Err(
                        rpc_error(
                            "UNSUPPORTED_ARCH"@,
                            "不支持的 CPU 架构: "@ + arch + "，请使用安装脚本手动更新"@,
                        ),
                    ),
                    Some(key) => match package_format(dpkg, rpm) {
                        None => Err(
                            rpc_error(
                                "UNSUPPORTED_PACKAGE_MANAGER"@,
                                "当前系统未找到 dpkg 或 rpm，无法远程更新，请使用安装脚本手动更新"@,
                            ),
                        ),
                        Some(format) => Ok(offer(body, current, key, format)),
                    },
                },
            }
        },
    }
}

/// The model of an offer or an error.
pub open spec fn offer_result(res: Result<UpdateInfo, RpcError>) -> Result<
    UpdateInfoView,
    RpcErrorView,
> {
    match res {
        Ok(i) => Ok(i@),
        Err(e) => Err(e@),
    }
}

/// The first package in a body that suits this machine; both parts are empty where none does.
fn offered_package(body: &Json, arch: &str, format: &str) -> (res: (String, String))
    ensures
        (res.0@, res.1@) == match package_from(linux_packages(body@), arch@, format@, 0) {
            Some(p) => p,
            None => (Seq::<char>::empty(), Seq::<char>::empty()),
        },
{
    if let Some(platforms) = body.get("platforms") {
        if let Some(linux) = platforms.get("linux") {
            if let Some(items) = linux.items() {
                if let Some(found) = select_package(items, arch, format) {
                    return found;
                }
            }
        }
    }
    let res = (String::new(), String::new());
    assert(res.0@ =~= Seq::<char>::empty());
    assert(res.1@ =~= Seq::<char>::empty());
    res
}

/// What the reply of the update service offers to this machine: the newest version, and the package
/// for exactly this architecture and this package manager.
pub fn read_offer(
    reply: Result<JsonReply, String>,
    current: &str,
    arch: &str,
    dpkg: bool,
    rpm: bool,
) -> (res: Result<UpdateInfo, RpcError>)
    ensures
        offer_result(res) == offered(fetch_view(reply), current@, arch@, dpkg, rpm),
{
    let r = match reply {
        Ok(r) => r,
        Err(e) => {
            return Err(
                RpcError::new(
                    "FETCH_UPDATE_FAILED",
                    "获取更新信息失败: ".to_owned().concat(e.as_str()),
                ),
            );
        },
    };
    if !is_success(r.code) {
        return Err(
            RpcError::new(
                "FETCH_UPDATE_FAILED",
                "更新服务返回: ".to_owned().concat(r.status.as_str()),
            ),
        );
    }
    let body = match r.body {
        Ok(b) => b,
        Err(e) => return Err(RpcError::new("PARSE_UPDATE_FAILED", e)),
    };
    let key = match arch_key_for(arch) {
        Some(k) => k,
        None => {
            return Err(
                RpcError::new(
                    "UNSUPPORTED_ARCH",
                    "不支持的 CPU 架构: ".to_owned().concat(arch).concat("，请使用安装脚本手动更新"),
                ),
            );
        },
    };
    let format = match detect_preferred_format(dpkg, rpm) {
        Some(f) => f,
        None => {
            return Err(
                RpcError::new(
                    "UNSUPPORTED_PACKAGE_MANAGER",
                    "当前系统未找到 dpkg 或 rpm，无法远程更新，请使用安装脚本手动更新".to_owned(),
                ),
            );
        },
    };
    let (download_url, sha256) = offered_package(&body, key, format);
    let latest_version = body.text_or("version", "");
    let has_update = version_gt(latest_version.as_str(), current);
    Ok(
        UpdateInfo {
            current_version: current.to_owned(),
            latest_version,
            release_name: body.text_or("name", ""),
            release_notes: body.text_or("releaseNotes", ""),
            published_at: body.text_or("releaseDate", ""),
            download_url,
            sha256,
            package_format: format.to_owned(),
            has_update,
        },
    )
}

/// What the update service offers to this machine, from its reply as it came in.
pub fn check_update(reply: Result<HttpReply, String>, arch: &str, dpkg: bool, rpm: bool) -> (res: Result<
    UpdateInfo,
    RpcError,
>)
    ensures
        offer_result(res) == offered(fetched(reply), "0.3.16"@, arch@, dpkg, rpm),
{
    let current = get_current_version();
    read_offer(decode_fetch(reply), current.as_str(), arch, dpkg, rpm)
}

/// An offer as it is answered.
pub open spec fn offer_json(info: UpdateInfoView) -> JsonView {
    JsonView::Object(
        seq![
            ("success"@, JsonView::Bool(true)),
            ("currentVersion"@, JsonView::Text(info.current_version)),
            ("latestVersion"@, JsonView::Text(info.latest_version)),
            ("releaseName"@, JsonView::Text(info.release_name)),
            ("releaseNotes"@, JsonView::Text(info.release_notes)),
            ("publishedAt"@, JsonView::Text(info.published_at)),
            ("downloadUrl"@, JsonView::Text(info.download_url)),
            ("sha256"@, JsonView::Text(info.sha256)),
            ("packageFormat"@, JsonView::Text(info.package_format)),
            ("packageAvailable"@, JsonView::Bool(info.download_url.len() > 0)),
            ("hasUpdate"@, JsonView::Bool(info.has_update)),
        ],
    )
}

impl UpdateInfo {
    /// The offer as it is answered.
    pub fn to_json(&self) -> (res: Json)
        ensures
            res@ == offer_json(self@),
    {
        let mut members: Vec<JsonMember> = Vec::new();
        members.push(member("success", Json::Bool(true)));
        members.push(member("currentVersion", Json::string(self.current_version.as_str())));
        members.push(member("latestVersion", Json::string(self.latest_version.as_str())));
        members.push(member("releaseName", Json::string(self.release_name.as_str())));
        members.push(member("releaseNotes", Json::string(self.release_notes.as_str())));
        members.push(member("publishedAt", Json::string(self.published_at.as_str())));
        members.push(member("downloadUrl", Json::string(self.download_url.as_str())));
        members.push(member("sha256", Json::string(self.sha256.as_str())));
        members.push(member("packageFormat", Json::string(self.package_format.as_str())));
        members.push(
            member("packageAvailable", Json::Bool(!self.download_url.as_str().is_empty())),
        );
        members.push(member("hasUpdate", Json::Bool(self.has_update)));
        let res = Json::object(members);
        assert(member_views(members@) =~= offer_json(self@)->Object_0);
        res
    }
}

/// A package that is offered for download is one of the list of the service, and is for exactly
/// the architecture and the package manager of this machine.
pub proof fn law_offer_never_crosses_platforms(
    reply: Result<ReplyView, Seq<char>>,
    current: Seq<char>,
    arch: Seq<char>,
    dpkg: bool,
    rpm: bool,
)
    requires
        offered(reply, current, arch, dpkg, rpm) is Ok,
        offered(reply, current, arch, dpkg, rpm)->Ok_0.download_url.len() > 0,
    ensures
        ({
            let packages = linux_packages(reply->Ok_0.body->Ok_0);
            let info = offered(reply, current, arch, dpkg, rpm)->Ok_0;
            exists|k: int|
                0 <= k < packages.len() && package_suits(
                    #[trigger] packages[k],
                    arch_key(arch)->0,
                    package_format(dpkg, rpm)->0,
                ) && packages[k].text("url"@) == Some(info.download_url)
        }),
{
    let packages = linux_packages(reply->Ok_0.body->Ok_0);
    law_selected_package_suits(packages, arch_key(arch)->0, package_format(dpkg, rpm)->0, 0);
}

// ----- installing an update -----

/// One thing to be done, in its order.
#[derive(Debug)]
pub enum UpdateEffect {
    /// Report progress: so many percent, and a text.
    Note(u64, String),
    /// Ask the update service.
    Check,
    /// Make this directory, then download this address to this file.
    Download { dir: String, url: String, path: String },
    /// Look whether this file is there.
    LookForHelper(String),
    /// Run this as root.
    Run(CommandLine),
    /// Run this as root, then look whether this file is there.
    RunAndLookFor(CommandLine, String),
    /// Replace the program by hand, from this package, with this directory to unpack it in.
    ManualInstall { pkg_path: String, updates_dir: String },
    /// Remove the downloaded file.
    RemovePackage(String),
    /// Start this and do not wait for it.
    Restart(CommandLine),
    /// Answer with this error.
    Fail(RpcError),
    /// Answer this.
    Finish(Json),
}

/// The model of [`UpdateEffect`].
pub enum EffectView {
    Note(u64, Seq<char>),
    Check,
    Download { dir: Seq<char>, url: Seq<char>, path: Seq<char> },
    LookForHelper(Seq<char>),
    Run(CommandView),
    RunAndLookFor(CommandView, Seq<char>),
    ManualInstall { pkg_path: Seq<char>, updates_dir: Seq<char> },
    RemovePackage(Seq<char>),
    Restart(CommandView),
    Fail(RpcErrorView),
    Finish(JsonView),
}

impl View for UpdateEffect {
    type V = EffectView;

    open spec fn view(&self) -> EffectView {
        match self {
            UpdateEffect::Note(percent, text) => EffectView::Note(*percent, text@),
            UpdateEffect::Check => EffectView::Check,
            UpdateEffect::Download { dir, url, path } => EffectView::Download {
                dir: dir@,
                url: url@,
                path: path@,
            },
            UpdateEffect::LookForHelper(p) => EffectView::LookForHelper(p@),
            UpdateEffect::Run(c) => EffectView::Run(c@),
            UpdateEffect::RunAndLookFor(c, p) => EffectView::RunAndLookFor(c@, p@),
            UpdateEffect::ManualInstall { pkg_path, updates_dir } => EffectView::ManualInstall {
                pkg_path: pkg_path@,
                updates_dir: updates_dir@,
            },
            UpdateEffect::RemovePackage(p) => EffectView::RemovePackage(p@),
            UpdateEffect::Restart(c) => EffectView::Restart(c@),
            UpdateEffect::Fail(e) => EffectView::Fail(e@),
            UpdateEffect::Finish(j) => EffectView::Finish(j@),
        }
    }
}

/// The models of a series of effects.
pub open spec fn effect_views(effects: Seq<UpdateEffect>) -> Seq<EffectView> {
    effects.map_values(|e: UpdateEffect| e@)
}

/// What an update waits for.
#[derive(Clone, Copy, Debug, PartialEq, Eq, Structural)]
pub enum UpdateStage {
    /// The offer of the update service.
    Check,
    /// The downloaded file.
    Download,
    /// Whether the helper is there.
    Helper,
    /// The end of the helper.
    Help,
    /// The end of the package manager.
    Install,
    /// The end of the repair of the dependencies.
    Repair,
    /// The end of the replacement by hand.
    Manual,
    /// The start of the restart.
    Restart,
    /// Nothing.
    Over,
}

/// What happened last.
pub enum UpdateEvent {
    /// The update service offers this, or there is an error.
    Checked(Result<UpdateInfo, RpcError>),
    /// So many bytes with this hash were downloaded, or they were not for this reason.
    Downloaded(Result<(u64, String), String>),
    /// The helper is there or not.
    Helper(bool),
    /// The program that was run has ended.
    Ran(RunOutcome),
    /// The repair has ended with success or without, and the program is there or not.
    Repaired { success: bool, present: bool },
    /// The program was replaced by hand, or it was not for this reason.
    Replaced(Result<(), String>),
    /// The restart was started, or it was not for this reason.
    Restarted(Result<(), String>),
}

/// The model of [`UpdateEvent`].
pub enum UpdateEventView {
    Checked(Result<UpdateInfoView, RpcErrorView>),
    Downloaded(Result<(u64, Seq<char>), Seq<char>>),
    Helper(bool),
    Ran(OutcomeView),
    Repaired { success: bool, present: bool },
    Replaced(Result<(), Seq<char>>),
    Restarted(Result<(), Seq<char>>),
}

impl View for UpdateEvent {
    type V = UpdateEventView;

    open spec fn view(&self) -> UpdateEventView {
        match self {
            UpdateEvent::Checked(Ok(i)) => UpdateEventView::Checked(Ok(i@)),
            UpdateEvent::Checked(Err(e)) => UpdateEventView::Checked(Err(e@)),
            UpdateEvent::Downloaded(Ok(d)) => UpdateEventView::Downloaded(Ok((d.0, d.1@))),
            UpdateEvent::Downloaded(Err(e)) => UpdateEventView::Downloaded(Err(e@)),
            UpdateEvent::Helper(b) => UpdateEventView::Helper(*b),
            UpdateEvent::Ran(o) => UpdateEventView::Ran(o@),
            UpdateEvent::Repaired { success, present } => UpdateEventView::Repaired {
                success: *success,
                present: *present,
            },
            UpdateEvent::Replaced(Ok(u)) => UpdateEventView::Replaced(Ok(*u)),
            UpdateEvent::Replaced(Err(e)) => UpdateEventView::Replaced(Err(e@)),
            UpdateEvent::Restarted(Ok(u)) => UpdateEventView::Restarted(Ok(*u)),
            UpdateEvent::Restarted(Err(e)) => UpdateEventView::Restarted(Err(e@)),
        }
    }
}

/// An update under way.
#[derive(Debug)]
pub struct Update {
    pub data_dir: String,
    pub is_root: bool,
    pub latest_version: String,
    pub expected_sha256: String,
    pub actual_sha256: String,
    pub is_deb: bool,
    pub updates_dir: String,
    pub pkg_path: String,
    /// What the package manager printed when it failed.
    pub complaint: String,
    pub stage: UpdateStage,
}

/// The model of [`Update`].
pub struct UpdateView {
    pub data_dir: Seq<char>,
    pub is_root: bool,
    pub latest_version: Seq<char>,
    pub expected_sha256: Seq<char>,
    pub actual_sha256: Seq<char>,
    pub is_deb: bool,
    pub updates_dir: Seq<char>,
    pub pkg_path: Seq<char>,
    pub complaint: Seq<char>,
    pub stage: UpdateStage,
}

impl View for Update {
    type V = UpdateView;

    open spec fn view(&self) -> UpdateView {
        UpdateView {
            data_dir: self.data_dir@,
            is_root: self.is_root,
            latest_version: self.latest_version@,
            expected_sha256: self.expected_sha256@,
            actual_sha256: self.actual_sha256@,
            is_deb: self.is_deb,
            updates_dir: self.updates_dir@,
            pkg_path: self.pkg_path@,
            complaint: self.complaint@,
            stage: self.stage,
        }
    }
}

/// The directory of downloads below the data directory.
pub open spec fn updates_dir_of(data_dir: Seq<char>) -> Seq<char> {
    without_trailing(data_dir, '/') + "/updates"@
}

/// The extension of the downloaded file.
pub open spec fn package_ext(url: Seq<char>) -> Seq<char> {
    if finishes_with(url, ".deb"@) {
        "deb"@
    } else if finishes_with(url, ".rpm"@) {
        "rpm"@
    } else {
        "deb"@
    }
}

/// The path of the downloaded file.
pub open spec fn package_path(data_dir: Seq<char>, url: Seq<char>) -> Seq<char> {
    updates_dir_of(data_dir) + "/chmlfrp-toolbox-daemon_update."@ + package_ext(url)
}

/// The commands that bring the new version into effect.
pub open spec fn restart_script(is_root: bool) -> Seq<char> {
    if is_root {
        "sleep 1; systemctl daemon-reload 2>/dev/null; systemctl restart chmlfrp-toolbox-daemon"@
    } else {
        "sleep 1; sudo -n systemctl daemon-reload 2>/dev/null; sudo -n systemctl restart chmlfrp-toolbox-daemon"@
    }
}

/// The call of the package manager for a file.
pub open spec fn install_command(is_deb: bool, path: Seq<char>) -> CommandView {
    if is_deb {
        CommandView { program: "dpkg"@, args: seq!["-i"@, path] }
    } else {
        CommandView { program: "rpm"@, args: seq!["-U"@, "--force"@, path] }
    }
}

/// The answer that there is nothing to update.
pub open spec fn up_to_date() -> JsonView {
    JsonView::Object(
        seq![
            ("success"@, JsonView::Bool(false)),
            ("message"@, JsonView::Text("当前已是最新版本，无需更新"@)),
        ],
    )
}

/// The words that the new version is coming into effect.
pub open spec fn updated_message(version: Seq<char>) -> Seq<char> {
    "已更新到 v"@ + version + "，服务正在重启..."@
}

/// The answer that the new version is coming into effect.
pub open spec fn updated(version: Seq<char>) -> JsonView {
    JsonView::Object(
        seq![
            ("success"@, JsonView::Bool(true)),
            ("message"@, JsonView::Text(updated_message(version))),
            ("newVersion"@, JsonView::Text(version)),
        ],
    )
}

/// An error as the last effect.
pub open spec fn failing(code: Seq<char>, message: Seq<char>) -> EffectView {
    EffectView::Fail(rpc_error(code, message))
}

impl UpdateView {
    /// Whether this is what the update waits for.
    pub open spec fn expects(self, event: UpdateEventView) -> bool {
        match event {
            UpdateEventView::Checked(_) => self.stage == UpdateStage::Check,
            UpdateEventView::Downloaded(_) => self.stage == UpdateStage::Download,
            UpdateEventView::Helper(_) => self.stage == UpdateStage::Helper,
            UpdateEventView::Ran(_) => self.stage == UpdateStage::Help || self.stage
                == UpdateStage::Install,
            UpdateEventView::Repaired { success, present } => self.stage == UpdateStage::Repair,
            UpdateEventView::Replaced(_) => self.stage == UpdateStage::Manual,
            UpdateEventView::Restarted(_) => self.stage == UpdateStage::Restart,
        }
    }

    /// The update at another stage.
    pub open spec fn at(self, stage: UpdateStage) -> UpdateView {
        UpdateView { stage, ..self }
    }

    /// The update is over.
    pub open spec fn over(self, effects: Seq<EffectView>) -> (UpdateView, Seq<EffectView>) {
        (self.at(UpdateStage::Over), effects)
    }

    /// The new version is installed: the file goes, and the service restarts.
    pub open spec fn installed(self, before: Seq<EffectView>) -> (UpdateView, Seq<EffectView>) {
        (
            self.at(UpdateStage::Restart),
            before + seq![
                EffectView::RemovePackage(self.pkg_path),
                EffectView::Note(85, "安装完成"@),
                EffectView::Note(90, "正在重启服务..."@),
                EffectView::Restart(
                    CommandView {
                        program: "sh"@,
                        args: seq!["-c"@, restart_script(self.is_root)],
                    },
                ),
            ],
        )
    }

    /// The installation failed: the file goes, and the error is answered.
    pub open spec fn refused(self, shown: Seq<char>, message: Seq<char>) -> (
        UpdateView,
        Seq<EffectView>,
    ) {
        self.over(
            seq![
                EffectView::RemovePackage(self.pkg_path),
                EffectView::Note(100, "安装失败: "@ + shown),
                failing("INSTALL_FAILED"@, message),
            ],
        )
    }

    /// What an offer leads to.
    pub open spec fn checked(self, offer: Result<UpdateInfoView, RpcErrorView>) -> (
        UpdateView,
        Seq<EffectView>,
    ) {
        match offer {
            Err(e) => self.over(seq![EffectView::Fail(e)]),
            Ok(info) => if !info.has_update {
                self.over(
                    seq![
                        EffectView::Note(100, "当前已是最新版本，无需更新"@),
                        EffectView::Finish(up_to_date()),
                    ],
                )
            } else if info.download_url.len() == 0 {
                self.over(
                    seq![
                        EffectView::Note(100, "未找到适合当前架构的安装包"@),
                        failing("NO_DOWNLOAD_URL"@, "未找到适合当前架构的安装包"@),
                    ],
                )
            } else {
                let url = info.download_url;
                (
                    UpdateView {
                        latest_version: info.latest_version,
                        expected_sha256: info.sha256,
                        is_deb: finishes_with(url, ".deb"@),
                        updates_dir: updates_dir_of(self.data_dir),
                        pkg_path: package_path(self.data_dir, url),
                        stage: UpdateStage::Download,
                        ..self
                    },
                    seq![
                        EffectView::Note(
                            10,
                            "发现新版本 v"@ + info.latest_version + "，准备下载..."@,
                        ),
                        EffectView::Note(15, "正在下载 "@ + package_ext(url) + " 安装包..."@),
                        EffectView::Download {
                            dir: updates_dir_of(self.data_dir),
                            url,
                            path: package_path(self.data_dir, url),
                        },
                    ],
                )
            },
        }
    }

    /// What a download leads to.
    pub open spec fn downloaded(self, download: Result<(u64, Seq<char>), Seq<char>>) -> (
        UpdateView,
        Seq<EffectView>,
    ) {
        match download {
            Err(e) => self.over(seq![failing("DOWNLOAD_FAILED"@, e)]),
            Ok((bytes, actual)) => {
                let arrived = EffectView::Note(
                    55,
                    "下载完成，大小: "@ + decimal((bytes / 1024) as nat) + " KB"@,
                );
                let next = UpdateView {
                    actual_sha256: actual,
                    stage: UpdateStage::Helper,
                    ..self
                };
                let look = EffectView::LookForHelper(
                    "/usr/lib/chmlfrp-toolbox-daemon/secure-update-helper.sh"@,
                );
                if self.expected_sha256.len() == 0 {
                    (next, seq![arrived, look])
                } else if actual == self.expected_sha256 {
                    (
                        next,
                        seq![
                            arrived,
                            EffectView::Note(60, "正在校验 SHA-256..."@),
                            EffectView::Note(65, "SHA-256 校验通过"@),
                            look,
                        ],
                    )
                } else {
                    (
                        next.at(UpdateStage::Over),
                        seq![
                            arrived,
                            EffectView::Note(60, "正在校验 SHA-256..."@),
                            EffectView::RemovePackage(self.pkg_path),
                            EffectView::Note(100, "SHA-256 校验失败"@),
                            failing(
                                "SHA256_MISMATCH"@,
                                "SHA-256 校验失败: 期望 "@ + self.expected_sha256 + "，实际 "@
                                    + actual,
                            ),
                        ],
                    )
                }
            },
        }
    }

    /// The hash that the helper is told: the one that was promised, else the one that was found.
    pub open spec fn helper_sha256(self) -> Seq<char> {
        if self.expected_sha256.len() == 0 {
            self.actual_sha256
        } else {
            self.expected_sha256
        }
    }

    /// What an event leads to: the next stage and what is to be done, in this order.
    pub open spec fn stepped(self, event: UpdateEventView) -> (UpdateView, Seq<EffectView>) {
        match event {
            UpdateEventView::Checked(offer) => self.checked(offer),
            UpdateEventView::Downloaded(download) => self.downloaded(download),
            UpdateEventView::Helper(present) => if present {
                (
                    self.at(UpdateStage::Help),
                    seq![
                        EffectView::Note(70, "正在通过安全更新助手安装..."@),
                        EffectView::Run(
                            CommandView {
                                program: "/usr/lib/chmlfrp-toolbox-daemon/secure-update-helper.sh"@,
                                args: seq![self.pkg_path, self.helper_sha256()],
                            },
                        ),
                    ],
                )
            } else {
                (
                    self.at(UpdateStage::Install),
                    seq![
                        EffectView::Note(
                            70,
                            if self.is_deb {
                                "正在安装 (dpkg -i...)..."@
                            } else {
                                "正在安装 (rpm -U --force...)..."@
                            },
                        ),
                        EffectView::Run(install_command(self.is_deb, self.pkg_path)),
                    ],
                )
            },
            UpdateEventView::Ran(outcome) => if self.stage == UpdateStage::Help {
                match outcome {
                    OutcomeView::NotRun(e) => self.over(
                        seq![failing("INSTALL_FAILED"@, "执行安全更新助手失败: "@ + e)],
                    ),
                    OutcomeView::Ended { success, stderr } => if success {
                        self.installed(Seq::empty())
                    } else {
                        self.refused(trimmed(stderr), "安全更新助手安装失败: "@ + trimmed(stderr))
                    },
                }
            } else {
                match outcome {
                    OutcomeView::NotRun(e) => self.over(
                        seq![failing("INSTALL_FAILED"@, "执行安装命令失败: "@ + e)],
                    ),
                    OutcomeView::Ended { success, stderr } => if success {
                        self.installed(Seq::empty())
                    } else if self.is_deb {
                        (
                            UpdateView {
                                complaint: trimmed(stderr),
                                stage: UpdateStage::Repair,
                                ..self
                            },
                            seq![
                                EffectView::Note(75, "安装失败，尝试修复依赖..."@),
                                EffectView::RunAndLookFor(
                                    CommandView {
                                        program: "apt-get"@,
                                        args: seq!["install"@, "-f"@, "-y"@],
                                    },
                                    "/usr/bin/chmlfrp-toolbox-daemon"@,
                                ),
                            ],
                        )
                    } else {
                        self.refused(trimmed(stderr), "rpm 安装失败: "@ + stderr)
                    },
                }
            },
            UpdateEventView::Repaired { success, present } => if success && present {
                self.installed(Seq::empty())
            } else {
                (
                    self.at(UpdateStage::Manual),
                    seq![
                        EffectView::Note(78, "修复依赖失败，尝试降级安装（解包替换二进制）..."@),
                        EffectView::ManualInstall {
                            pkg_path: self.pkg_path,
                            updates_dir: self.updates_dir,
                        },
                    ],
                )
            },
            UpdateEventView::Replaced(Ok(_)) => self.installed(
                seq![EffectView::Note(85, "降级安装成功"@)],
            ),
            UpdateEventView::Replaced(Err(e)) => self.refused(
                e,
                "dpkg 安装失败（"@ + self.complaint + "）且降级安装失败: "@ + e,
            ),
            UpdateEventView::Restarted(Ok(_)) => self.over(
                seq![
                    EffectView::Note(100, updated_message(self.latest_version)),
                    EffectView::Finish(updated(self.latest_version)),
                ],
            ),
            UpdateEventView::Restarted(Err(e)) => self.over(
                seq![failing("RESTART_FAILED"@, "启动重启进程失败: "@ + e)],
            ),
        }
    }
}

/// An update that has not begun to look for a version.
pub open spec fn new_update(data_dir: Seq<char>, is_root: bool) -> UpdateView {
    UpdateView {
        data_dir,
        is_root,
        latest_version: Seq::empty(),
        expected_sha256: Seq::empty(),
        actual_sha256: Seq::empty(),
        is_deb: false,
        updates_dir: Seq::empty(),
        pkg_path: Seq::empty(),
        complaint: Seq::empty(),
        stage: UpdateStage::Check,
    }
}

/// Begins an update, unless one is under way already.
pub fn perform_update(in_progress: bool, data_dir: &str, is_root: bool) -> (res: Result<
    (Update, Vec<UpdateEffect>),
    RpcError,
>)
    ensures
        match res {
            Ok((update, effects)) => {
                &&& !in_progress
                &&& update@ == new_update(data_dir@, is_root)
                &&& effect_views(effects@) == seq![
                    EffectView::Note(5, "正在检查版本信息..."@),
                    EffectView::Check,
                ]
            },
            Err(e) => in_progress && e@ == rpc_error(
                "UPDATE_IN_PROGRESS"@,
                "已有更新任务正在执行，请等待其完成后再试"@,
            ),
        },
{
    if in_progress {
        return Err(
            RpcError::new(
                "UPDATE_IN_PROGRESS",
                "已有更新任务正在执行，请等待其完成后再试".to_owned(),
            ),
        );
    }
    let update = Update {
        data_dir: data_dir.to_owned(),
        is_root,
        latest_version: String::new(),
        expected_sha256: String::new(),
        actual_sha256: String::new(),
        is_deb: false,
        updates_dir: String::new(),
        pkg_path: String::new(),
        complaint: String::new(),
        stage: UpdateStage::Check,
    };
    proof {
        let none = Seq::<char>::empty();
        assert(update@.latest_version =~= none);
        assert(update@.expected_sha256 =~= none);
        assert(update@.actual_sha256 =~= none);
        assert(update@.updates_dir =~= none);
        assert(update@.pkg_path =~= none);
        assert(update@.complaint =~= none);
    }
    let mut effects: Vec<UpdateEffect> = Vec::new();
    effects.push(UpdateEffect::Note(5, "正在检查版本信息...".to_owned()));
    effects.push(UpdateEffect::Check);
    assert(effect_views(effects@) =~= seq![
        EffectView::Note(5, "正在检查版本信息..."@),
        EffectView::Check,
    ]);
    Ok((update, effects))
}

/// The extension of the downloaded file.
fn make_package_ext(url: &str) -> (res: &'static str)
    ensures
        res@ == package_ext(url@),
{
    if ends_with(url, ".deb") {
        "deb"
    } else if ends_with(url, ".rpm") {
        "rpm"
    } else {
        "deb"
    }
}

/// Effects with one more behind them.
fn push_effect(effects: &mut Vec<UpdateEffect>, effect: UpdateEffect)
    ensures
        effect_views(final(effects)@) == effect_views(old(effects)@).push(effect@),
{
    effects.push(effect);
    assert(effect_views(effects@) =~= effect_views(old(effects)@).push(effect@));
}

impl Update {
    /// The update is over, with one effect.
    fn close(&mut self, effect: UpdateEffect) -> (res: Vec<UpdateEffect>)
        ensures
            (final(self)@, effect_views(res@)) == old(self)@.over(seq![effect@]),
    {
        self.stage = UpdateStage::Over;
        let mut effects: Vec<UpdateEffect> = Vec::new();
        effects.push(effect);
        assert(effect_views(effects@) =~= seq![effect@]);
        effects
    }

    /// The new version is installed: the file goes, and the service restarts.
    fn install_done(&mut self, before: Vec<UpdateEffect>) -> (res: Vec<UpdateEffect>)
        ensures
            (final(self)@, effect_views(res@)) == old(self)@.installed(effect_views(before@)),
    {
        self.stage = UpdateStage::Restart;
        let script = if self.is_root {
            "sleep 1; systemctl daemon-reload 2>/dev/null; systemctl restart chmlfrp-toolbox-daemon"
        } else {
            "sleep 1; sudo -n systemctl daemon-reload 2>/dev/null; sudo -n systemctl restart chmlfrp-toolbox-daemon"
        };
        let mut effects = before;
        push_effect(&mut effects, UpdateEffect::RemovePackage(self.pkg_path.as_str().to_owned()));
        push_effect(&mut effects, UpdateEffect::Note(85, "安装完成".to_owned()));
        push_effect(&mut effects, UpdateEffect::Note(90, "正在重启服务...".to_owned()));
        push_effect(&mut effects, UpdateEffect::Restart(command2("sh", "-c", script)));
        assert(effect_views(effects@) =~= old(self)@.installed(effect_views(before@)).1);
        effects
    }

    /// The installation failed: the file goes, and the error is answered.
    fn refuse(&mut self, shown: &str, message: String) -> (res: Vec<UpdateEffect>)
        ensures
            (final(self)@, effect_views(res@)) == old(self)@.refused(shown@, message@),
    {
        self.stage = UpdateStage::Over;
        let mut effects: Vec<UpdateEffect> = Vec::new();
        push_effect(&mut effects, UpdateEffect::RemovePackage(self.pkg_path.as_str().to_owned()));
        push_effect(&mut effects, UpdateEffect::Note(100, "安装失败: ".to_owned().concat(shown)));
        push_effect(&mut effects, UpdateEffect::Fail(RpcError::new("INSTALL_FAILED", message)));
        assert(effect_views(effects@) =~= old(self)@.refused(shown@, message@).1);
        effects
    }

    /// What an offer leads to.
    fn on_checked(&mut self, offer: Result<UpdateInfo, RpcError>) -> (res: Vec<UpdateEffect>)
        ensures
            (final(self)@, effect_views(res@)) == old(self)@.checked(offer_result(offer)),
    {
        let info = match offer {
            Ok(i) => i,
            Err(e) => return self.close(UpdateEffect::Fail(e)),
        };
        let mut effects: Vec<UpdateEffect> = Vec::new();
        if !info.has_update {
            self.stage = UpdateStage::Over;
            let mut members: Vec<JsonMember> = Vec::new();
            members.push(member("success", Json::Bool(false)));
            members.push(member("message", Json::string("当前已是最新版本，无需更新")));
            assert(member_views(members@) =~= up_to_date()->Object_0);
            push_effect(&mut effects, UpdateEffect::Note(100, "当前已是最新版本，无需更新".to_owned()));
            push_effect(&mut effects, UpdateEffect::Finish(Json::object(members)));
            assert(effect_views(effects@) =~= old(self)@.checked(offer_result(offer)).1);
            return effects;
        }
        if info.download_url.as_str().is_empty() {
            self.stage = UpdateStage::Over;
            let message = "未找到适合当前架构的安装包";
            push_effect(&mut effects, UpdateEffect::Note(100, message.to_owned()));
            push_effect(
                &mut effects,
                UpdateEffect::Fail(RpcError::new("NO_DOWNLOAD_URL", message.to_owned())),
            );
            assert(effect_views(effects@) =~= old(self)@.checked(offer_result(offer)).1);
            return effects;
        }
        let url = info.download_url.as_str();
        let ext = make_package_ext(url);
        let base = strip_trailing(self.data_dir.as_str(), '/');
        let updates_dir = base.concat("/updates");
        let pkg_path = updates_dir.as_str().to_owned().concat("/chmlfrp-toolbox-daemon_update.").concat(
            ext,
        );
        push_effect(
            &mut effects,
            UpdateEffect::Note(
                10,
                "发现新版本 v".to_owned().concat(info.latest_version.as_str()).concat("，准备下载..."),
            ),
        );
        push_effect(
            &mut effects,
            UpdateEffect::Note(15, "正在下载 ".to_owned().concat(ext).concat(" 安装包...")),
        );
        push_effect(
            &mut effects,
            UpdateEffect::Download {
                dir: updates_dir.as_str().to_owned(),
                url: url.to_owned(),
                path: pkg_path.as_str().to_owned(),
            },
        );
        assert(effect_views(effects@) =~= old(self)@.checked(offer_result(offer)).1);
        self.is_deb = ends_with(url, ".deb");
        self.latest_version = info.latest_version;
        self.expected_sha256 = info.sha256;
        self.updates_dir = updates_dir;
        self.pkg_path = pkg_path;
        self.stage = UpdateStage::Download;
        effects
    }

    /// What a download leads to. A file that has not the promised hash is removed and never
    /// installed.
    fn on_downloaded(&mut self, download: Result<(u64, String), String>) -> (res: Vec<UpdateEffect>)
        ensures
            (final(self)@, effect_views(res@)) == old(self)@.downloaded(
                match download {
                    Ok(d) => Ok((d.0, d.1@)),
                    Err(e) => Err(e@),
                },
            ),
    {
        let (bytes, actual) = match download {
            Ok(d) => d,
            Err(e) => return self.close(UpdateEffect::Fail(RpcError::new("DOWNLOAD_FAILED", e))),
        };
        let ghost given = Ok::<(u64, Seq<char>), Seq<char>>((bytes, actual@));
        let mut effects: Vec<UpdateEffect> = Vec::new();
        let mut size = "下载完成，大小: ".to_owned();
        push_decimal(&mut size, bytes / 1024);
        size.append(" KB");
        push_effect(&mut effects, UpdateEffect::Note(55, size));
        if !self.expected_sha256.as_str().is_empty() {
            push_effect(&mut effects, UpdateEffect::Note(60, "正在校验 SHA-256...".to_owned()));
            if !same_text(actual.as_str(), self.expected_sha256.as_str()) {
                let message = "SHA-256 校验失败: 期望 ".to_owned().concat(
                    self.expected_sha256.as_str(),
                ).concat("，实际 ").concat(actual.as_str());
                push_effect(
                    &mut effects,
                    UpdateEffect::RemovePackage(self.pkg_path.as_str().to_owned()),
                );
                push_effect(&mut effects, UpdateEffect::Note(100, "SHA-256 校验失败".to_owned()));
                push_effect(
                    &mut effects,
                    UpdateEffect::Fail(RpcError::new("SHA256_MISMATCH", message)),
                );
                self.actual_sha256 = actual;
                self.stage = UpdateStage::Over;
                assert(effect_views(effects@) =~= old(self)@.downloaded(given).1);
                return effects;
            }
            push_effect(&mut effects, UpdateEffect::Note(65, "SHA-256 校验通过".to_owned()));
        }
        self.actual_sha256 = actual;
        self.stage = UpdateStage::Helper;
        push_effect(
            &mut effects,
            UpdateEffect::LookForHelper(
                "/usr/lib/chmlfrp-toolbox-daemon/secure-update-helper.sh".to_owned(),
            ),
        );
        assert(effect_views(effects@) =~= old(self)@.downloaded(given).1);
        effects
    }

    /// What knowing of the helper leads to: it installs the file where it is there, else the
    /// package manager does.
    fn on_helper(&mut self, present: bool) -> (res: Vec<UpdateEffect>)
        ensures
            (final(self)@, effect_views(res@)) == old(self)@.stepped(UpdateEventView::Helper(present)),
    {
        let mut effects: Vec<UpdateEffect> = Vec::new();
        if present {
            self.stage = UpdateStage::Help;
            let sha = if self.expected_sha256.as_str().is_empty() {
                self.actual_sha256.as_str()
            } else {
                self.expected_sha256.as_str()
            };
            let command = command2(
                "/usr/lib/chmlfrp-toolbox-daemon/secure-update-helper.sh",
                self.pkg_path.as_str(),
                sha,
            );
            push_effect(&mut effects, UpdateEffect::Note(70, "正在通过安全更新助手安装...".to_owned()));
            push_effect(&mut effects, UpdateEffect::Run(command));
        } else {
            self.stage = UpdateStage::Install;
            let path = self.pkg_path.as_str();
            let (text, command) = if self.is_deb {
                ("正在安装 (dpkg -i...)...", command2("dpkg", "-i", path))
            } else {
                ("正在安装 (rpm -U --force...)...", command3("rpm", "-U", "--force", path))
            };
            push_effect(&mut effects, UpdateEffect::Note(70, text.to_owned()));
            push_effect(&mut effects, UpdateEffect::Run(command));
        }
        assert(effect_views(effects@) =~= old(self)@.stepped(UpdateEventView::Helper(present)).1);
        effects
    }

    /// What the end of the helper or of the package manager leads to.
    fn on_ran(&mut self, outcome: RunOutcome) -> (res: Vec<UpdateEffect>)
        ensures
            (final(self)@, effect_views(res@)) == old(self)@.stepped(UpdateEventView::Ran(outcome@)),
    {
        let helped = self.stage == UpdateStage::Help;
        match outcome {
            RunOutcome::NotRun(e) => {
                let what = if helped {
                    "执行安全更新助手失败: "
                } else {
                    "执行安装命令失败: "
                };
                let error = RpcError::new("INSTALL_FAILED", what.to_owned().concat(e.as_str()));
                self.close(UpdateEffect::Fail(error))
            },
            RunOutcome::Ended { success, stderr } => {
                if success {
                    let none: Vec<UpdateEffect> = Vec::new();
                    assert(effect_views(none@) =~= Seq::<EffectView>::empty());
                    return self.install_done(none);
                }
                let shown = trim(stderr.as_str());
                if helped {
                    let message = "安全更新助手安装失败: ".to_owned().concat(shown.as_str());
                    return self.refuse(shown.as_str(), message);
                }
                if !self.is_deb {
                    let message = "rpm 安装失败: ".to_owned().concat(stderr.as_str());
                    return self.refuse(shown.as_str(), message);
                }
                let mut effects: Vec<UpdateEffect> = Vec::new();
                push_effect(&mut effects, UpdateEffect::Note(75, "安装失败，尝试修复依赖...".to_owned()));
                push_effect(
                    &mut effects,
                    UpdateEffect::RunAndLookFor(
                        command3("apt-get", "install", "-f", "-y"),
                        "/usr/bin/chmlfrp-toolbox-daemon".to_owned(),
                    ),
                );
                self.complaint = shown;
                self.stage = UpdateStage::Repair;
                assert(effect_views(effects@) =~= old(self)@.stepped(
                    UpdateEventView::Ran(outcome@),
                ).1);
                effects
            },
        }
    }

    /// Whether this is what the update waits for.
    pub fn awaits(&self, event: &UpdateEvent) -> (res: bool)
        ensures
            res == self@.expects(event@),
    {
        match event {
            UpdateEvent::Checked(_) => self.stage == UpdateStage::Check,
            UpdateEvent::Downloaded(_) => self.stage == UpdateStage::Download,
            UpdateEvent::Helper(_) => self.stage == UpdateStage::Helper,
            UpdateEvent::Ran(_) => self.stage == UpdateStage::Help || self.stage
                == UpdateStage::Install,
            UpdateEvent::Repaired { success: _, present: _ } => self.stage == UpdateStage::Repair,
            UpdateEvent::Replaced(_) => self.stage == UpdateStage::Manual,
            UpdateEvent::Restarted(_) => self.stage == UpdateStage::Restart,
        }
    }

    /// What an event leads to: what is to be done, in this order. The last of the effects either
    /// brings the next event or ends the update.
    pub fn advance(&mut self, event: UpdateEvent) -> (res: Vec<UpdateEffect>)
        requires
            old(self)@.expects(event@),
        ensures
            (final(self)@, effect_views(res@)) == old(self)@.stepped(event@),
    {
        match event {
            UpdateEvent::Checked(offer) => self.on_checked(offer),
            UpdateEvent::Downloaded(download) => self.on_downloaded(download),
            UpdateEvent::Helper(present) => self.on_helper(present),
            UpdateEvent::Ran(outcome) => self.on_ran(outcome),
            UpdateEvent::Repaired { success, present } => {
                let mut effects: Vec<UpdateEffect> = Vec::new();
                assert(effect_views(effects@) =~= Seq::<EffectView>::empty());
                if success && present {
                    return self.install_done(effects);
                }
                push_effect(
                    &mut effects,
                    UpdateEffect::Note(78, "修复依赖失败，尝试降级安装（解包替换二进制）...".to_owned()),
                );
                push_effect(
                    &mut effects,
                    UpdateEffect::ManualInstall {
                        pkg_path: self.pkg_path.as_str().to_owned(),
                        updates_dir: self.updates_dir.as_str().to_owned(),
                    },
                );
                self.stage = UpdateStage::Manual;
                assert(effect_views(effects@) =~= old(self)@.stepped(event@).1);
                effects
            },
            UpdateEvent::Replaced(Ok(_)) => {
                let mut effects: Vec<UpdateEffect> = Vec::new();
                push_effect(&mut effects, UpdateEffect::Note(85, "降级安装成功".to_owned()));
                assert(effect_views(effects@) =~= seq![EffectView::Note(85, "降级安装成功"@)]);
                self.install_done(effects)
            },
            UpdateEvent::Replaced(Err(e)) => {
                let message = "dpkg 安装失败（".to_owned().concat(self.complaint.as_str()).concat(
                    "）且降级安装失败: ",
                ).concat(e.as_str());
                self.refuse(e.as_str(), message)
            },
            UpdateEvent::Restarted(Ok(_)) => {
                let version = self.latest_version.as_str();
                let message = "已更新到 v".to_owned().concat(version).concat("，服务正在重启...");
                let mut members: Vec<JsonMember> = Vec::new();
                members.push(member("success", Json::Bool(true)));
                members.push(member("message", Json::string(message.as_str())));
                members.push(member("newVersion", Json::string(version)));
                assert(member_views(members@) =~= updated(version@)->Object_0);
                let mut effects: Vec<UpdateEffect> = Vec::new();
                push_effect(&mut effects, UpdateEffect::Note(100, message));
                push_effect(&mut effects, UpdateEffect::Finish(Json::object(members)));
                self.stage = UpdateStage::Over;
                assert(effect_views(effects@) =~= old(self)@.stepped(event@).1);
                effects
            },
            UpdateEvent::Restarted(Err(e)) => {
                let message = "启动重启进程失败: ".to_owned().concat(e.as_str());
                self.close(UpdateEffect::Fail(RpcError::new("RESTART_FAILED", message)))
            },
        }
    }

    /// What a complete download leads to: the hash is that of the bytes that came in.
    pub fn verify_download(&mut self, digest: StreamDigest) -> (res: Vec<UpdateEffect>)
        requires
            old(self)@.stage == UpdateStage::Download,
            digest.wf(),
        ensures
            (final(self)@, effect_views(res@)) == old(self)@.stepped(
                UpdateEventView::Downloaded(
                    Ok((digest.bytes().len() as u64, hex(sha256(digest.bytes())))),
                ),
            ),
    {
        let bytes: u64 = digest.len();
        let hash = digest.finish();
        self.advance(UpdateEvent::Downloaded(Ok((bytes, hash))))
    }
}

/// Whether an effect puts the downloaded file to use.
pub open spec fn uses_package(effect: EffectView) -> bool {
    effect is Run || effect is RunAndLookFor || effect is ManualInstall || effect is Restart
}

/// Whether the file that an update is about to use, or uses, has the hash that was promised.
pub open spec fn package_verified(update: UpdateView) -> bool {
    update.stage == UpdateStage::Check || update.stage == UpdateStage::Download || update.stage
        == UpdateStage::Over || update.expected_sha256.len() == 0 || update.actual_sha256
        == update.expected_sha256
}

/// No file is put to use unless it has the hash that was promised, where one was. This holds of
/// every update from its beginning on.
pub proof fn law_only_verified_packages_are_used(update: UpdateView, event: UpdateEventView)
    requires
        package_verified(update),
        update.expects(event),
    ensures
        package_verified(update.stepped(event).0),
        forall|i: int|
            0 <= i < update.stepped(event).1.len() && uses_package(
                #[trigger] update.stepped(event).1[i],
            ) ==> update.expected_sha256.len() == 0 || update.actual_sha256
                == update.expected_sha256,
        forall|dir: Seq<char>, root: bool| package_verified(#[trigger] new_update(dir, root)),
{
}

/// An update after a series of events.
pub open spec fn update_after(update: UpdateView, events: Seq<UpdateEventView>) -> UpdateView
    decreases events.len(),
{
    if events.len() == 0 {
        update
    } else {
        update_after(update, events.drop_last()).stepped(events.last()).0
    }
}

/// Whether every event of a series is one that the update waits for when it happens.
pub open spec fn update_follows(update: UpdateView, events: Seq<UpdateEventView>) -> bool
    decreases events.len(),
{
    events.len() > 0 ==> update_follows(update, events.drop_last()) && update_after(
        update,
        events.drop_last(),
    ).expects(events.last())
}

/// Over any series of events, what an update is told to do puts a file to use only where the hash
/// that was found is the one that was promised, if one was.
pub proof fn law_update_uses_only_what_was_promised(
    data_dir: Seq<char>,
    is_root: bool,
    events: Seq<UpdateEventView>,
)
    requires
        update_follows(new_update(data_dir, is_root), events),
    ensures
        ({
            let first = new_update(data_dir, is_root);
            let now = update_after(first, events);
            &&& package_verified(now)
            &&& events.len() > 0 ==> {
                let effects = update_after(first, events.drop_last()).stepped(events.last()).1;
                forall|i: int|
                    0 <= i < effects.len() && uses_package(#[trigger] effects[i])
                        ==> now.expected_sha256.len() == 0 || now.actual_sha256
                        == now.expected_sha256
            }
        }),
    decreases events.len(),
{
    if events.len() > 0 {
        law_update_uses_only_what_was_promised(data_dir, is_root, events.drop_last());
        let before = update_after(new_update(data_dir, is_root), events.drop_last());
        law_only_verified_packages_are_used(before, events.last());
    }
}

/// A download with another hash than the promised one is removed, ends the update with an error,
/// and is not put to use.
pub proof fn law_bad_download_is_removed(update: UpdateView, bytes: u64, actual: Seq<char>)
    requires
        update.stage == UpdateStage::Download,
        update.expected_sha256.len() > 0,
        update.expected_sha256 != actual,
    ensures
        ({
            let (next, effects) = update.stepped(UpdateEventView::Downloaded(Ok((bytes, actual))));
            &&& next.stage == UpdateStage::Over
            &&& effects.contains(EffectView::RemovePackage(update.pkg_path))
            &&& effects.last() matches EffectView::Fail(e) && e.code == "SHA256_MISMATCH"@
            &&& forall|i: int| 0 <= i < effects.len() ==> !uses_package(#[trigger] effects[i])
        }),
{
    let effects = update.stepped(UpdateEventView::Downloaded(Ok((bytes, actual)))).1;
    assert(effects[2] == EffectView::RemovePackage(update.pkg_path));
}

/// Whether an event says that the new version is installed.
pub open spec fn says_installed(event: UpdateEventView) -> bool {
    match event {
        UpdateEventView::Ran(OutcomeView::Ended { success, stderr }) => success,
        UpdateEventView::Repaired { success, present } => success && present,
        UpdateEventView::Replaced(Ok(_)) => true,
        _ => false,
    }
}

/// The service is restarted exactly when an event says that the new version is installed, and the
/// file is removed before.
pub proof fn law_restart_follows_installation(update: UpdateView, event: UpdateEventView)
    requires
        update.expects(event),
    ensures
        ({
            let (next, effects) = update.stepped(event);
            &&& says_installed(event) <==> next.stage == UpdateStage::Restart
            &&& says_installed(event) <==> effects.last() is Restart
            &&& says_installed(event) ==> effects[effects.len() - 4] == EffectView::RemovePackage(
                update.pkg_path,
            )
        }),
{
}

/// The last effect of a step either ends the update with an answer, or is what the next event is
/// about. No other effect is.
pub proof fn law_every_step_goes_on_or_answers(update: UpdateView, event: UpdateEventView)
    requires
        update.expects(event),
    ensures
        ({
            let (next, effects) = update.stepped(event);
            &&& effects.len() > 0
            &&& next.stage == UpdateStage::Over <==> (effects.last() is Fail || effects.last()
                is Finish)
            &&& next.stage == UpdateStage::Download ==> effects.last() is Download
            &&& next.stage == UpdateStage::Helper ==> effects.last() is LookForHelper
            &&& next.stage == UpdateStage::Help || next.stage == UpdateStage::Install
                ==> effects.last() is Run
            &&& next.stage == UpdateStage::Repair ==> effects.last() is RunAndLookFor
            &&& next.stage == UpdateStage::Manual ==> effects.last() is ManualInstall
            &&& next.stage == UpdateStage::Restart ==> effects.last() is Restart
            &&& forall|i: int|
                0 <= i < effects.len() - 1 ==> #[trigger] effects[i] is Note || effects[i]
                    is RemovePackage
        }),
{
}

// ----- settings -----

/// What switches automatic updates on or off.
#[derive(Clone, Copy, Debug, PartialEq, Eq, Structural)]
pub struct SetAutoUpdateParams {
    pub enabled: bool,
}

/// The update settings as they are answered.
pub open spec fn settings_json(auto_update: bool) -> JsonView {
    JsonView::Object(
        seq![
            ("success"@, JsonView::Bool(true)),
            ("autoUpdate"@, JsonView::Bool(auto_update)),
            ("currentVersion"@, JsonView::Text("0.3.16"@)),
        ],
    )
}

/// The update settings as they are answered, given whether automatic updates are on.
pub fn get_update_settings(auto_update: bool) -> (res: Json)
    ensures
        res@ == settings_json(auto_update),
{
    let version = get_current_version();
    let mut members: Vec<JsonMember> = Vec::new();
    members.push(member("success", Json::Bool(true)));
    members.push(member("autoUpdate", Json::Bool(auto_update)));
    members.push(member("currentVersion", Json::string(version.as_str())));
    let res = Json::object(members);
    assert(member_views(members@) =~= settings_json(auto_update)->Object_0);
    res
}

/// The answer to switching automatic updates on or off.
pub open spec fn switched_json(enabled: bool) -> JsonView {
    JsonView::Object(
        seq![
            ("success"@, JsonView::Bool(true)),
            (
                "message"@,
                JsonView::Text(
                    if enabled {
                        "已开启自动更新"@
                    } else {
                        "已关闭自动更新"@
                    },
                ),
            ),
        ],
    )
}

/// The answer to switching automatic updates on or off, given whether that could be saved.
pub fn set_auto_update(params: SetAutoUpdateParams, saved: Result<(), String>) -> (res: Result<
    Json,
    RpcError,
>)
    ensures
        match saved {
            Ok(_) => res matches Ok(j) && j@ == switched_json(params.enabled),
            Err(m) => res matches Err(e) && e@ == rpc_error("CONFIG_SAVE_FAILED"@, m@),
        },
{
    match saved {
        Ok(_) => {
            let message = if params.enabled {
                "已开启自动更新"
            } else {
                "已关闭自动更新"
            };
            let mut members: Vec<JsonMember> = Vec::new();
            members.push(member("success", Json::Bool(true)));
            members.push(member("message", Json::string(message)));
            let res = Json::object(members);
            assert(member_views(members@) =~= switched_json(params.enabled)->Object_0);
            Ok(res)
        },
        Err(m) => Err(RpcError::new("CONFIG_SAVE_FAILED", m)),
    }
}

/// What is done about the message that there is a new version.
#[derive(Clone, Copy, Debug, PartialEq, Eq, Structural)]
pub enum NotificationAction {
    /// The update is performed.
    Perform,
    /// Nothing.
    Ignore,
}

/// The message that there is a new version starts an update where automatic updates are on, and
/// nothing else does.
pub fn handle_update_notification(auto_update: bool) -> (res: NotificationAction)
    ensures
        res == NotificationAction::Perform <==> auto_update,
{
    if auto_update {
        NotificationAction::Perform
    } else {
        NotificationAction::Ignore
    }
}

// ----- what an offer is -----

/// An offer that is read with success is an update exactly where the version that is offered is larger
/// than the one that runs: with zeros put behind the shorter list of numbers, there is a place at which
/// the number that is offered is larger and before which both have the same numbers.
pub proof fn law_only_a_newer_version_is_an_update(
    reply: Result<ReplyView, Seq<char>>,
    current: Seq<char>,
    arch: Seq<char>,
    dpkg: bool,
    rpm: bool,
    n: int,
)
    requires
        offered(reply, current, arch, dpkg, rpm) is Ok,
        version(offered(reply, current, arch, dpkg, rpm)->Ok_0.latest_version).len() <= n,
        version(current).len() <= n,
    ensures
        ({
            let info = offered(reply, current, arch, dpkg, rpm)->Ok_0;
            let x = with_zeros(version(info.latest_version), n);
            let y = with_zeros(version(current), n);
            info.has_update <==> exists|i: int|
                0 <= i < n && x[i] > y[i] && #[trigger] x.take(i) == y.take(i)
        }),
{
    law_first_difference_decides(
        version(offered(reply, current, arch, dpkg, rpm)->Ok_0.latest_version),
        version(current),
        n,
    );
}

/// An offer of the version that runs is never an update, nor is one of an older version, and one of a
/// newer version always is.
pub proof fn law_no_update_to_the_same_or_an_older_version(
    reply: Result<ReplyView, Seq<char>>,
    offered_numbers: Seq<nat>,
    current_numbers: Seq<nat>,
    arch: Seq<char>,
    dpkg: bool,
    rpm: bool,
    at: int,
)
    requires
        offered_numbers.len() > 0,
        offered_numbers.len() == current_numbers.len(),
        forall|i: int| 0 <= i < offered_numbers.len() ==> #[trigger] offered_numbers[i] <= u32::MAX,
        forall|i: int| 0 <= i < current_numbers.len() ==> #[trigger] current_numbers[i] <= u32::MAX,
        ({
            let current = crate::text::joined(number_words(current_numbers), seq!['.']);
            let res = offered(reply, current, arch, dpkg, rpm);
            res is Ok && res->Ok_0.latest_version == crate::text::joined(
                number_words(offered_numbers),
                seq!['.'],
            )
        }),
        0 <= at < offered_numbers.len(),
        offered_numbers.take(at) == current_numbers.take(at),
    ensures
        ({
            let current = crate::text::joined(number_words(current_numbers), seq!['.']);
            let info = offered(reply, current, arch, dpkg, rpm)->Ok_0;
            &&& offered_numbers == current_numbers ==> !info.has_update
            &&& offered_numbers[at] < current_numbers[at] ==> !info.has_update
            &&& offered_numbers[at] > current_numbers[at] ==> info.has_update
        }),
{
    let (a, b) = (offered_numbers, current_numbers);
    let n = a.len() as int;
    law_version_is_read_as_its_numbers(a);
    law_version_is_read_as_its_numbers(b);
    let current = crate::text::joined(number_words(b), seq!['.']);
    law_only_a_newer_version_is_an_update(reply, current, arch, dpkg, rpm, n);
    let (x, y) = (with_zeros(a, n), with_zeros(b, n));
    assert(x =~= a);
    assert(y =~= b);
    assert(x.take(at) == y.take(at));
    if a[at] < b[at] {
        assert forall|i: int| 0 <= i < n && x[i] > y[i] implies #[trigger] x.take(i) != y.take(
            i,
        ) by {
            if i < at {
                assert(x.take(at)[i] == y.take(at)[i]);
            } else {
                assert(x.take(i)[at] != y.take(i)[at]);
            }
        }
    }
}

/// What is offered is told member by member: the version that runs, and of the body the version, the
/// name, the notes and the date, each empty where it is not there.
pub proof fn law_offer_tells_what_the_service_says(
    reply: Result<ReplyView, Seq<char>>,
    current: Seq<char>,
    arch: Seq<char>,
    dpkg: bool,
    rpm: bool,
)
    requires
        offered(reply, current, arch, dpkg, rpm) is Ok,
    ensures
        ({
            let body = reply->Ok_0.body->Ok_0;
            let info = offered(reply, current, arch, dpkg, rpm)->Ok_0;
            &&& info.current_version == current
            &&& match body.text("version"@) {
                Some(s) => info.latest_version == s,
                None => info.latest_version.len() == 0,
            }
            &&& match body.text("name"@) {
                Some(s) => info.release_name == s,
                None => info.release_name.len() == 0,
            }
            &&& match body.text("releaseNotes"@) {
                Some(s) => info.release_notes == s,
                None => info.release_notes.len() == 0,
            }
            &&& match body.text("releaseDate"@) {
                Some(s) => info.published_at == s,
                None => info.published_at.len() == 0,
            }
            &&& info.package_format == if dpkg {
                "deb"@
            } else {
                "rpm"@
            }
        }),
{
    reveal_strlit("");
}

/// The package that is offered is the first in the list of the service for Linux that has an address
/// and is for this architecture and this package manager; its hash goes with its address. Without such
/// a package there is neither.
pub proof fn law_offered_package_is_the_first_that_suits(
    reply: Result<ReplyView, Seq<char>>,
    current: Seq<char>,
    arch: Seq<char>,
    dpkg: bool,
    rpm: bool,
    k: int,
)
    requires
        offered(reply, current, arch, dpkg, rpm) is Ok,
    ensures
        ({
            let packages = linux_packages(reply->Ok_0.body->Ok_0);
            let info = offered(reply, current, arch, dpkg, rpm)->Ok_0;
            let suits = |p: JsonView|
                p.text("format"@) == Some(info.package_format) && p.text_or("arch"@, ""@) == (
                if arch == "x86_64"@ {
                    "x64"@
                } else {
                    "arm64"@
                }) && p.text("url"@) is Some;
            &&& 0 <= k < packages.len() && suits(packages[k]) && (forall|j: int|
                0 <= j < k ==> !suits(#[trigger] packages[j])) ==> packages[k].text("url"@) == Some(
                info.download_url,
            ) && info.sha256 == packages[k].text_or("sha256"@, ""@)
            &&& (forall|j: int| 0 <= j < packages.len() ==> !suits(#[trigger] packages[j]))
                ==> info.download_url.len() == 0 && info.sha256.len() == 0
        }),
{
    reveal_strlit("");
    let packages = linux_packages(reply->Ok_0.body->Ok_0);
    let info = offered(reply, current, arch, dpkg, rpm)->Ok_0;
    law_known_architectures(arch);
    let key = arch_key(arch)->0;
    law_address_and_hash_are_of_one_package(packages, key, info.package_format, 0);
    if let Some((url, hash)) = package_from(packages, key, info.package_format, 0) {
        let m = choose|m: int|
            #![trigger packages[m]]
            0 <= m < packages.len() && packages[m].text("format"@) == Some(info.package_format)
                && packages[m].text_or("arch"@, ""@) == key && packages[m].text("url"@) == Some(url)
                && (match packages[m].text("sha256"@) {
                Some(h) => hash == h,
                None => hash.len() == 0,
            }) && forall|j: int|
                0 <= j < m ==> !((#[trigger] packages[j]).text("format"@) == Some(
                    info.package_format,
                ) && packages[j].text_or("arch"@, ""@) == key && packages[j].text("url"@) is Some);
        if m < k {
            assert(packages[m].text("url"@) is Some);
        } else if k < m && 0 <= k {
            assert(packages[k] == packages[k]);
        }
        assert(packages[m].text("sha256"@) is None ==> hash =~= packages[m].text_or(
            "sha256"@,
            ""@,
        ));
    }
}

/// An offer can be read exactly where the service answered with success and a body that can be read,
/// and this machine is of a known architecture and has a package manager. Everything else is an error
/// of its own.
pub proof fn law_offer_or_its_own_error(
    reply: Result<ReplyView, Seq<char>>,
    current: Seq<char>,
    arch: Seq<char>,
    dpkg: bool,
    rpm: bool,
)
    ensures
        ({
            let res = offered(reply, current, arch, dpkg, rpm);
            let answered = reply matches Ok(r) && 200 <= r.code && r.code <= 299;
            let known = arch == "x86_64"@ || arch == "aarch64"@;
            &&& res is Ok <==> answered && reply->Ok_0.body is Ok && known && (dpkg || rpm)
            &&& !answered ==> (res matches Err(e) && e.code == "FETCH_UPDATE_FAILED"@)
            &&& answered && reply->Ok_0.body is Err ==> (res matches Err(e) && e.code
                == "PARSE_UPDATE_FAILED"@ && e.message == reply->Ok_0.body->Err_0)
            &&& answered && reply->Ok_0.body is Ok && !known ==> (res matches Err(e) && e.code
                == "UNSUPPORTED_ARCH"@)
            &&& answered && reply->Ok_0.body is Ok && known && !dpkg && !rpm ==> (
            res matches Err(e) && e.code == "UNSUPPORTED_PACKAGE_MANAGER"@)
        }),
{
    law_known_architectures(arch);
}

/// The packages of an offer are the list that stands in the body under `platforms` and there under
/// `linux`. Where there is no such list there are none.
pub proof fn law_packages_are_those_for_linux(body: JsonView)
    ensures
        body.get("platforms"@) matches Some(p) ==> (p.get("linux"@) matches Some(
            JsonView::Array(items),
        ) ==> linux_packages(body) == items),
        body.get("platforms"@) is None ==> linux_packages(body).len() == 0,
        body.get("platforms"@) matches Some(p) ==> (!(p.get("linux"@) matches Some(
            JsonView::Array(items),
        )) ==> linux_packages(body).len() == 0),
{
}

/// An offer is answered member by member, and a package counts as available exactly where it has an
/// address.
pub proof fn law_offer_is_answered(info: UpdateInfoView)
    ensures
        ({
            let j = offer_json(info);
            &&& j.flag("success"@) == Some(true)
            &&& j.text("currentVersion"@) == Some(info.current_version)
            &&& j.text("latestVersion"@) == Some(info.latest_version)
            &&& j.text("releaseName"@) == Some(info.release_name)
            &&& j.text("releaseNotes"@) == Some(info.release_notes)
            &&& j.text("publishedAt"@) == Some(info.published_at)
            &&& j.text("downloadUrl"@) == Some(info.download_url)
            &&& j.text("sha256"@) == Some(info.sha256)
            &&& j.text("packageFormat"@) == Some(info.package_format)
            &&& j.flag("packageAvailable"@) == Some(info.download_url.len() > 0)
            &&& j.flag("hasUpdate"@) == Some(info.has_update)
        }),
{
    reveal_strlit("success");
    reveal_strlit("currentVersion");
    reveal_strlit("latestVersion");
    reveal_strlit("releaseName");
    reveal_strlit("releaseNotes");
    reveal_strlit("publishedAt");
    reveal_strlit("downloadUrl");
    reveal_strlit("sha256");
    reveal_strlit("packageFormat");
    reveal_strlit("packageAvailable");
    reveal_strlit("hasUpdate");
    assert("success"@.len() == 7);
    assert("currentVersion"@.len() == 14);
    assert("latestVersion"@.len() == 13);
    assert("releaseName"@.len() == 11);
    assert("releaseNotes"@.len() == 12);
    assert("publishedAt"@.len() == 11);
    assert("downloadUrl"@.len() == 11);
    assert("sha256"@.len() == 6);
    assert("packageFormat"@.len() == 13);
    assert("packageAvailable"@.len() == 16);
    assert("hasUpdate"@.len() == 9);
    assert("latestVersion"@[0] != "packageFormat"@[0]);
    assert("releaseName"@[0] != "publishedAt"@[0]);
    assert("releaseName"@[0] != "downloadUrl"@[0]);
    assert("publishedAt"@[0] != "downloadUrl"@[0]);
    reveal_with_fuel(crate::json::member_from, 12);
}

// ----- what an update does -----

/// An offer that is no update ends in the answer that there is nothing to do, without success; one
/// without a package ends in an error. Otherwise the address that is offered is downloaded, and the
/// update holds on to the version and the hash that are offered and to the file that is written.
pub proof fn law_offer_is_what_is_downloaded(update: UpdateView, info: UpdateInfoView)
    ensures
        ({
            let (next, effects) = update.stepped(UpdateEventView::Checked(Ok(info)));
            &&& !info.has_update ==> (effects.last() matches EffectView::Finish(j) && j.flag(
                "success"@,
            ) == Some(false))
            &&& info.has_update && info.download_url.len() == 0 ==> (
            effects.last() matches EffectView::Fail(e) && e.code == "NO_DOWNLOAD_URL"@)
            &&& info.has_update && info.download_url.len() > 0 ==> {
                &&& effects.last() matches EffectView::Download { dir, url, path } && {
                    &&& url == info.download_url
                    &&& path == next.pkg_path
                    &&& dir == next.updates_dir
                    &&& crate::text::begins_with(path, dir + seq!['/'])
                }
                &&& next.latest_version == info.latest_version
                &&& next.expected_sha256 == info.sha256
                &&& next.is_deb <==> finishes_with(info.download_url, ".deb"@)
                &&& next.is_root == update.is_root
                &&& next.data_dir == update.data_dir
            }
        }),
{
    reveal_strlit("success");
    reveal_strlit("message");
    assert("success"@.len() == 7);
    assert("message"@.len() == 7);
    assert("success"@[0] != "message"@[0]);
    reveal_with_fuel(crate::json::member_from, 3);
    let url = info.download_url;
    let dir = updates_dir_of(update.data_dir);
    let path = package_path(update.data_dir, url);
    reveal_strlit("/chmlfrp-toolbox-daemon_update.");
    assert("/chmlfrp-toolbox-daemon_update."@[0] == '/');
    assert(path.subrange(0, (dir + seq!['/']).len() as int) =~= dir + seq!['/']);
}

/// Downloads go to the directory `updates` below the data directory, under one name that ends as the
/// address does.
pub proof fn law_download_goes_below_the_data_directory(data_dir: Seq<char>, url: Seq<char>)
    requires
        data_dir.len() > 0,
        data_dir.last() != '/',
    ensures
        updates_dir_of(data_dir) == data_dir + "/updates"@,
        updates_dir_of(data_dir.push('/')) == data_dir + "/updates"@,
        finishes_with(url, ".rpm"@) ==> package_path(data_dir, url) == data_dir
            + "/updates/chmlfrp-toolbox-daemon_update.rpm"@,
        !finishes_with(url, ".rpm"@) ==> package_path(data_dir, url) == data_dir
            + "/updates/chmlfrp-toolbox-daemon_update.deb"@,
{
    crate::text::law_nothing_to_strip(data_dir, '/');
    assert(data_dir.push('/').drop_last() =~= data_dir);
    reveal_strlit("/updates");
    reveal_strlit("/chmlfrp-toolbox-daemon_update.");
    reveal_strlit("deb");
    reveal_strlit("rpm");
    reveal_strlit(".deb");
    reveal_strlit(".rpm");
    reveal_strlit("/updates/chmlfrp-toolbox-daemon_update.rpm");
    reveal_strlit("/updates/chmlfrp-toolbox-daemon_update.deb");
    if finishes_with(url, ".rpm"@) && finishes_with(url, ".deb"@) {
        assert(url.subrange(url.len() - 4, url.len() as int)[1] == '.');
        assert(".rpm"@[1] == ".deb"@[1]);
    }
    assert(package_path(data_dir, url) =~= data_dir + (if finishes_with(url, ".rpm"@) {
        "/updates/chmlfrp-toolbox-daemon_update.rpm"@
    } else {
        "/updates/chmlfrp-toolbox-daemon_update.deb"@
    }));
}

/// A download goes on to the installation exactly where no hash was promised or it has the one that
/// was. One that broke off ends the update with its reason.
pub proof fn law_download_goes_on_only_with_the_right_hash(
    update: UpdateView,
    bytes: u64,
    actual: Seq<char>,
    reason: Seq<char>,
)
    requires
        update.stage == UpdateStage::Download,
    ensures
        ({
            let (next, effects) = update.stepped(UpdateEventView::Downloaded(Ok((bytes, actual))));
            let good = update.expected_sha256.len() == 0 || actual == update.expected_sha256;
            &&& good <==> next.expects(UpdateEventView::Helper(true))
            &&& good ==> effects.last() is LookForHelper && next.actual_sha256 == actual
                && forall|i: int| 0 <= i < effects.len() ==> !(#[trigger] effects[i] is RemovePackage)
            &&& !good ==> effects.last() is Fail
            &&& update.stepped(
                UpdateEventView::Downloaded(Err(reason)),
            ).1.last() matches EffectView::Fail(e) && e.code == "DOWNLOAD_FAILED"@ && e.message
                == reason
        }),
{
}

/// What is installed is the file that was downloaded, by the helper where it is there, which is told
/// the hash that was promised, or else the one that was found; by `dpkg` where it is a `deb` package,
/// and by `rpm` otherwise.
pub proof fn law_downloaded_file_is_installed(update: UpdateView)
    ensures
        update.stepped(
            UpdateEventView::Helper(true),
        ).1.last() matches EffectView::Run(c) && c.program
            == "/usr/lib/chmlfrp-toolbox-daemon/secure-update-helper.sh"@ && c.args.len() == 2
            && c.args[0] == update.pkg_path && c.args[1] == (if update.expected_sha256.len() > 0 {
            update.expected_sha256
        } else {
            update.actual_sha256
        }),
        update.stepped(UpdateEventView::Helper(false)).1.last() matches EffectView::Run(c) && {
            &&& c.program == if update.is_deb {
                "dpkg"@
            } else {
                "rpm"@
            }
            &&& c.args.len() > 0 && c.args.last() == update.pkg_path
            &&& update.is_deb ==> c.args == seq!["-i"@, update.pkg_path]
            &&& !update.is_deb ==> c.args == seq!["-U"@, "--force"@, update.pkg_path]
        },
{
}

/// Where the package manager fails on a `deb` package, the dependencies are repaired, and where that
/// does not bring the program, it is replaced by hand from the file that was downloaded. Any other
/// failure ends the update with an error, and the file is removed.
pub proof fn law_failed_installation_is_repaired_or_told(
    update: UpdateView,
    stderr: Seq<char>,
    reason: Seq<char>,
    success: bool,
    present: bool,
)
    ensures
        ({
            let failed = UpdateEventView::Ran(OutcomeView::Ended { success: false, stderr });
            let installing = update.at(UpdateStage::Install);
            let helping = update.at(UpdateStage::Help);
            let (a, x) = installing.stepped(failed);
            let (b, y) = helping.stepped(failed);
            let (c, z) = update.at(UpdateStage::Repair).stepped(
                UpdateEventView::Repaired { success, present },
            );
            let (d, w) = update.at(UpdateStage::Manual).stepped(
                UpdateEventView::Replaced(Err(reason)),
            );
            &&& update.is_deb ==> (x.last() matches EffectView::RunAndLookFor(c, p) && c.program
                == "apt-get"@ && c.args == seq!["install"@, "-f"@, "-y"@] && p
                == "/usr/bin/chmlfrp-toolbox-daemon"@) && a.complaint == trimmed(stderr)
            &&& !update.is_deb ==> x[0] == EffectView::RemovePackage(update.pkg_path) && (
            x.last() matches EffectView::Fail(e) && e.code == "INSTALL_FAILED"@)
            &&& y[0] == EffectView::RemovePackage(update.pkg_path) && (
            y.last() matches EffectView::Fail(e) && e.code == "INSTALL_FAILED"@)
            &&& !(success && present) ==> (z.last() matches EffectView::ManualInstall {
                pkg_path,
                updates_dir,
            } && pkg_path == update.pkg_path && updates_dir == update.updates_dir)
            &&& w[0] == EffectView::RemovePackage(update.pkg_path) && (
            w.last() matches EffectView::Fail(e) && e.code == "INSTALL_FAILED"@)
        }),
{
}

/// A program that could not be run at all ends the update with an error that tells why.
pub proof fn law_program_that_does_not_run_is_told(update: UpdateView, reason: Seq<char>)
    ensures
        ({
            let not_run = UpdateEventView::Ran(OutcomeView::NotRun(reason));
            let x = update.at(UpdateStage::Help).stepped(not_run).1;
            let y = update.at(UpdateStage::Install).stepped(not_run).1;
            &&& x.last() matches EffectView::Fail(e) && e.code == "INSTALL_FAILED"@
                && finishes_with(e.message, reason)
            &&& y.last() matches EffectView::Fail(e) && e.code == "INSTALL_FAILED"@
                && finishes_with(e.message, reason)
        }),
{
    let a = "执行安全更新助手失败: "@ + reason;
    let b = "执行安装命令失败: "@ + reason;
    assert(a.subrange(a.len() - reason.len(), a.len() as int) =~= reason);
    assert(b.subrange(b.len() - reason.len(), b.len() as int) =~= reason);
}

/// The commands that bring the new version into effect restart the service, through `sudo` exactly
/// where this process is not root.
pub proof fn law_restart_is_through_sudo_unless_root()
    ensures
        crate::text::has_text(restart_script(true), "systemctl restart chmlfrp-toolbox-daemon"@),
        crate::text::has_text(
            restart_script(false),
            "sudo -n systemctl restart chmlfrp-toolbox-daemon"@,
        ),
        restart_script(true) != restart_script(false),
        restart_script(true).len() + 16 == restart_script(false).len(),
{
    reveal_strlit("systemctl restart chmlfrp-toolbox-daemon");
    reveal_strlit("sudo -n systemctl restart chmlfrp-toolbox-daemon");
    reveal_strlit(
        "sleep 1; systemctl daemon-reload 2>/dev/null; systemctl restart chmlfrp-toolbox-daemon",
    );
    reveal_strlit(
        "sleep 1; sudo -n systemctl daemon-reload 2>/dev/null; sudo -n systemctl restart chmlfrp-toolbox-daemon",
    );
    let a = restart_script(true);
    let b = restart_script(false);
    let x = "systemctl restart chmlfrp-toolbox-daemon"@;
    let y = "sudo -n systemctl restart chmlfrp-toolbox-daemon"@;
    assert(a.subrange(a.len() - x.len(), a.len() as int) =~= x);
    assert(b.subrange(b.len() - y.len(), b.len() as int) =~= y);
    assert(crate::text::occurs_at(a, x, a.len() - x.len()));
    assert(crate::text::occurs_at(b, y, b.len() - y.len()));
}

/// An installed version is restarted by a shell that runs the commands for this user, and once that is
/// under way the answer names the version that was offered. A restart that does not come about is an
/// error.
pub proof fn law_new_version_comes_into_effect(
    update: UpdateView,
    event: UpdateEventView,
    reason: Seq<char>,
)
    requires
        update.expects(event),
    ensures
        says_installed(event) ==> (update.stepped(event).1.last() matches EffectView::Restart(c)
            && c.program == "sh"@ && c.args == seq!["-c"@, restart_script(update.is_root)]),
        update.at(UpdateStage::Restart).stepped(
            UpdateEventView::Restarted(Ok(())),
        ).1.last() matches EffectView::Finish(j) && j.flag("success"@) == Some(true) && j.text(
            "newVersion"@,
        ) == Some(update.latest_version) && (j.text("message"@) matches Some(m)
            && crate::text::has_text(m, update.latest_version)),
        update.at(UpdateStage::Restart).stepped(
            UpdateEventView::Restarted(Err(reason)),
        ).1.last() matches EffectView::Fail(e) && e.code == "RESTART_FAILED"@ && finishes_with(
            e.message,
            reason,
        ),
{
    reveal_strlit("success");
    reveal_strlit("message");
    reveal_strlit("newVersion");
    assert("success"@.len() == 7);
    assert("message"@.len() == 7);
    assert("newVersion"@.len() == 10);
    assert("success"@[0] != "message"@[0]);
    reveal_with_fuel(crate::json::member_from, 4);
    let m = updated_message(update.latest_version);
    let at = "已更新到 v"@.len() as int;
    assert(m.subrange(at, at + update.latest_version.len()) =~= update.latest_version);
    assert(crate::text::occurs_at(m, update.latest_version, at));
    let a = "启动重启进程失败: "@ + reason;
    assert(a.subrange(a.len() - reason.len(), a.len() as int) =~= reason);
}

/// Once the download has begun, the file, the version that is answered, the promised hash, the kind of
/// the package and the user stay what they are, to the end of the update.
pub proof fn law_update_holds_on_to_its_package(update: UpdateView, event: UpdateEventView)
    requires
        update.expects(event),
        update.stage != UpdateStage::Check,
    ensures
        ({
            let next = update.stepped(event).0;
            &&& next.pkg_path == update.pkg_path
            &&& next.updates_dir == update.updates_dir
            &&& next.latest_version == update.latest_version
            &&& next.expected_sha256 == update.expected_sha256
            &&& next.is_deb == update.is_deb
            &&& next.is_root == update.is_root
            &&& next.stage == UpdateStage::Helper || next.actual_sha256 == update.actual_sha256
                || next.stage == UpdateStage::Over
            &&& forall|i: int|
                0 <= i < update.stepped(event).1.len() ==> (#[trigger] update.stepped(event).1[i]
                    matches EffectView::RemovePackage(p) ==> p == update.pkg_path)
        }),
{
}

/// Every percentage that is told is above 0 and at most a hundred.
pub proof fn law_progress_stays_below_a_hundred(update: UpdateView, event: UpdateEventView)
    requires
        update.expects(event),
    ensures
        forall|i: int|
            0 <= i < update.stepped(event).1.len() ==> (#[trigger] update.stepped(event).1[i]
                matches EffectView::Note(percent, _) ==> 0 < percent && percent <= 100),
{
}

/// The settings and their change as they are answered.
pub proof fn law_settings_are_answered(enabled: bool)
    ensures
        settings_json(enabled).flag("success"@) == Some(true),
        settings_json(enabled).flag("autoUpdate"@) == Some(enabled),
        settings_json(enabled).text("currentVersion"@) is Some,
        switched_json(enabled).flag("success"@) == Some(true),
        up_to_date().flag("success"@) == Some(false),
        up_to_date().text("message"@) is Some,
        switched_json(true).text("message"@) != switched_json(false).text("message"@),
{
    reveal_strlit("success");
    reveal_strlit("autoUpdate");
    reveal_strlit("currentVersion");
    reveal_strlit("message");
    assert("success"@.len() == 7);
    assert("autoUpdate"@.len() == 10);
    assert("currentVersion"@.len() == 14);
    assert("message"@.len() == 7);
    assert("success"@[0] != "message"@[0]);
    reveal_with_fuel(crate::json::member_from, 5);
    reveal_strlit("已开启自动更新");
    reveal_strlit("已关闭自动更新");
    assert("已开启自动更新"@[1] != "已关闭自动更新"@[1]);
}

} // verus!
