//! Getting hold of the frpc program: one that is there, or a verified download.
use crate::digest::{StreamDigest, hex, sha256};
use crate::http::{is_success, success_code};
use crate::text::{
    decimal, decimal_text, join_path, lower, opt_str, opt_view, path_join, same_ignoring_case,
    same_text, trim, trimmed, views,
};
use vstd::prelude::*;
use vstd::string::*;

verus! {

/// The address of the list of downloads.
pub const FRPC_INFO_URL: &'static str = "https://cf-v1.uapis.cn/download/frpc/frpc_info.json";

/// The list of downloads as the service answers it.
#[derive(Debug)]
pub struct FrpcInfoResponse {
    pub msg: String,
    pub state: String,
    pub code: u32,
    pub data: FrpcInfoData,
}

/// The downloads.
#[derive(Debug)]
pub struct FrpcInfoData {
    pub downloads: Vec<FrpcDownload>,
}

/// One download.
#[derive(Debug)]
pub struct FrpcDownload {
    /// The SHA-256 digest in hexadecimal, empty where it is not known.
    pub hash: String,
    pub platform: String,
    pub link: String,
    /// The size in bytes, 0 where it is not known.
    pub size: u64,
}

/// The model of [`FrpcDownload`].
pub struct DownloadView {
    pub hash: Seq<char>,
    pub platform: Seq<char>,
    pub link: Seq<char>,
    pub size: u64,
}

impl View for FrpcDownload {
    type V = DownloadView;

    open spec fn view(&self) -> DownloadView {
        DownloadView {
            hash: self.hash@,
            platform: self.platform@,
            link: self.link@,
            size: self.size,
        }
    }
}

/// The models of downloads.
pub open spec fn download_views(downloads: Seq<FrpcDownload>) -> Seq<DownloadView> {
    downloads.map_values(|d: FrpcDownload| d@)
}

/// The first download for a platform from position `i` on.
pub open spec fn download_from(downloads: Seq<DownloadView>, platform: Seq<char>, i: int) -> Option<
    DownloadView,
>
    decreases downloads.len() - i,
{
    if i < 0 || i >= downloads.len() {
        None
    } else if downloads[i].platform == platform {
        Some(downloads[i])
    } else {
        download_from(downloads, platform, i + 1)
    }
}

/// The first download for a platform.
pub fn select_download<'a>(downloads: &'a Vec<FrpcDownload>, platform: &str) -> (res: Option<
    &'a FrpcDownload,
>)
    ensures
        match res {
            Some(d) => download_from(download_views(downloads@), platform@, 0) == Some(d@)
                && d@.platform == platform@,
            None => download_from(download_views(downloads@), platform@, 0) is None,
        },
{
    let mut i: usize = 0;
    while i < downloads.len()
        invariant
            i <= downloads@.len(),
            download_from(download_views(downloads@), platform@, 0) == download_from(
                download_views(downloads@),
                platform@,
                i as int,
            ),
        decreases downloads@.len() - i,
    {
        assert(download_views(downloads@)[i as int] == downloads@[i as int]@);
        if same_text(downloads[i].platform.as_str(), platform) {
            return Some(&downloads[i]);
        }
        i = i + 1;
    }
    None
}

/// The platform of an architecture under Linux.
pub open spec fn platform_of(arch: Seq<char>) -> Option<Seq<char>> {
    if arch == "x86"@ {
        Some("linux_386"@)
    } else if arch == "x86_64"@ {
        Some("linux_amd64"@)
    } else if arch == "arm"@ {
        Some("linux_arm"@)
    } else if arch == "aarch64"@ {
        Some("linux_arm64"@)
    } else {
        None
    }
}

/// The platform of an architecture under Linux.
pub fn linux_platform(arch: &str) -> (res: Option<&'static str>)
    ensures
        opt_str(res) == platform_of(arch@),
{
    if same_text(arch, "x86") {
        Some("linux_386")
    } else if same_text(arch, "x86_64") {
        Some("linux_amd64")
    } else if same_text(arch, "arm") {
        Some("linux_arm")
    } else if same_text(arch, "aarch64") {
        Some("linux_arm64")
    } else {
        None
    }
}

/// Where the daemon keeps its own frpc.
pub open spec fn managed_path(data_dir: Seq<char>) -> Seq<char> {
    path_join(path_join(data_dir, "bin"@), "frpc"@)
}

/// Where the daemon keeps its own frpc.
pub fn managed_frpc_path(data_dir: &str) -> (res: String)
    ensures
        res@ == managed_path(data_dir@),
{
    let dir = join_path(data_dir, "bin");
    join_path(dir.as_str(), "frpc")
}

/// The usual places of an installed frpc.
pub open spec fn usual_places() -> Seq<Seq<char>> {
    seq!["/usr/local/bin/frpc"@, "/usr/bin/frpc"@, "/opt/frpc/frpc"@]
}

/// The usual places of an installed frpc, the first choice first.
pub fn system_places() -> (res: Vec<String>)
    ensures
        views(res@) == usual_places(),
{
    let mut out: Vec<String> = Vec::new();
    out.push("/usr/local/bin/frpc".to_owned());
    out.push("/usr/bin/frpc".to_owned());
    out.push("/opt/frpc/frpc".to_owned());
    assert(views(out@) =~= usual_places());
    out
}

/// What the program `which` says: the path that it prints, where it ends with success.
pub fn which_path(success: bool, printed: &str) -> (res: Option<String>)
    ensures
        opt_view(res) == if success {
            Some(trimmed(printed@))
        } else {
            None
        },
{
    if success {
        Some(trim(printed))
    } else {
        None
    }
}

/// The first of the usual places from `i` on where there is a file, else what was found otherwise.
pub open spec fn installed_from(present: Seq<bool>, found: Option<Seq<char>>, i: int) -> Option<Seq<char>>
    decreases 3 - i,
{
    if i >= 3 {
        found
    } else if present[i] {
        Some(usual_places()[i])
    } else {
        installed_from(present, found, i + 1)
    }
}

/// An installed frpc: at the first of the usual places where there is a file, else where it was
/// found otherwise.
pub fn existing_system_frpc(present: &Vec<bool>, found: Option<String>) -> (res: Option<String>)
    requires
        present@.len() == 3,
    ensures
        opt_view(res) == installed_from(present@, opt_view(found), 0),
{
    let places = system_places();
    let mut i: usize = 0;
    while i < 3
        invariant
            i <= 3,
            present@.len() == 3,
            views(places@) == usual_places(),
            installed_from(present@, opt_view(found), 0) == installed_from(
                present@,
                opt_view(found),
                i as int,
            ),
        decreases 3 - i,
    {
        assert(places@.len() == usual_places().len());
        assert(usual_places()[i as int] == places@[i as int]@);
        if present[i] {
            return Some(places[i].as_str().to_owned());
        }
        i = i + 1;
    }
    found
}

// ----- what a download must be -----

/// The complaint about what was downloaded, if there is one: nothing came, or its size or its hash
/// is not what was promised.
pub open spec fn download_complaint(promised: DownloadView, bytes: nat, hash: Seq<char>) -> Option<
    Seq<char>,
> {
    if bytes == 0 {
        Some("下载 frpc 失败: 未收到数据"@)
    } else if promised.size > 0 && bytes != promised.size {
        Some(
            "frpc 文件大小校验失败: 期望 "@ + decimal(promised.size as nat) + "，实际 "@ + decimal(
                bytes,
            ),
        )
    } else if promised.hash.len() > 0 && lower(hash) != lower(promised.hash) {
        Some("frpc SHA-256 校验失败: 期望 "@ + promised.hash + "，实际 "@ + hash)
    } else {
        None
    }
}

/// Whether what was downloaded is what was promised.
pub fn check_download(promised: &FrpcDownload, bytes: u64, hash: &str) -> (res: Result<(), String>)
    ensures
        match res {
            Ok(_) => download_complaint(promised@, bytes as nat, hash@) is None,
            Err(e) => download_complaint(promised@, bytes as nat, hash@) == Some(e@),
        },
{
    if bytes == 0 {
        return Err("下载 frpc 失败: 未收到数据".to_owned());
    }
    if promised.size > 0 && bytes != promised.size {
        let expected = decimal_text(promised.size);
        let actual = decimal_text(bytes);
        return Err(
            "frpc 文件大小校验失败: 期望 ".to_owned().concat(expected.as_str()).concat("，实际 ").concat(
                actual.as_str(),
            ),
        );
    }
    if !promised.hash.as_str().is_empty() && !same_ignoring_case(hash, promised.hash.as_str()) {
        return Err(
            "frpc SHA-256 校验失败: 期望 ".to_owned().concat(promised.hash.as_str()).concat(
                "，实际 ",
            ).concat(hash),
        );
    }
    Ok(())
}

// ----- step by step -----

/// What the service of downloads answered.
#[derive(Debug)]
pub struct InfoReply {
    /// The status code.
    pub code: u16,
    /// The status in words.
    pub status: String,
    /// The list of downloads, or why there is none.
    pub info: Result<FrpcInfoResponse, String>,
}

/// The model of an answer: the status, and the message, the state, the code and the downloads.
pub struct InfoView {
    pub code: u16,
    pub status: Seq<char>,
    pub info: Result<(Seq<char>, Seq<char>, u32, Seq<DownloadView>), Seq<char>>,
}

impl View for InfoReply {
    type V = InfoView;

    open spec fn view(&self) -> InfoView {
        InfoView {
            code: self.code,
            status: self.status@,
            info: match self.info {
                Ok(i) => Ok((i.msg@, i.state@, i.code, download_views(i.data.downloads@))),
                Err(e) => Err(e@),
            },
        }
    }
}

/// The download for a platform that the service offers, or the complaint.
pub open spec fn offered_download(reply: Result<InfoView, Seq<char>>, platform: Seq<char>) -> Result<
    DownloadView,
    Seq<char>,
> {
    match reply {
        Err(e) => Err("获取 frpc 下载信息失败: "@ + e),
        Ok(r) => if !success_code(r.code) {
            Err("获取 frpc 下载信息失败: HTTP "@ + r.status)
        } else {
            match r.info {
                Err(e) => Err("解析 frpc 下载信息失败: "@ + e),
                Ok((msg, state, code, downloads)) => if code != 200 || state != "success"@ {
                    Err("frpc 下载接口返回错误: "@ + msg)
                } else {
                    match download_from(downloads, platform, 0) {
                        Some(d) => Ok(d),
                        None => Err("未找到当前平台的 frpc 下载项: "@ + platform),
                    }
                },
            }
        },
    }
}

/// The download for a platform that the service offers.
pub fn read_info(reply: Result<InfoReply, String>, platform: &str) -> (res: Result<FrpcDownload, String>)
    ensures
        ({
            let given = match reply {
                Ok(r) => Ok(r@),
                Err(e) => Err(e@),
            };
            match res {
                Ok(d) => offered_download(given, platform@) == Ok::<DownloadView, Seq<char>>(d@),
                Err(e) => offered_download(given, platform@) == Err::<DownloadView, Seq<char>>(e@),
            }
        }),
{
    let r = match reply {
        Ok(r) => r,
        Err(e) => return Err("获取 frpc 下载信息失败: ".to_owned().concat(e.as_str())),
    };
    if !is_success(r.code) {
        return Err("获取 frpc 下载信息失败: HTTP ".to_owned().concat(r.status.as_str()));
    }
    let info = match r.info {
        Ok(i) => i,
        Err(e) => return Err("解析 frpc 下载信息失败: ".to_owned().concat(e.as_str())),
    };
    if info.code != 200 || !same_text(info.state.as_str(), "success") {
        return Err("frpc 下载接口返回错误: ".to_owned().concat(info.msg.as_str()));
    }
    match select_download(&info.data.downloads, platform) {
        Some(d) => Ok(
            FrpcDownload {
                hash: d.hash.as_str().to_owned(),
                platform: d.platform.as_str().to_owned(),
                link: d.link.as_str().to_owned(),
                size: d.size,
            },
        ),
        None => Err("未找到当前平台的 frpc 下载项: ".to_owned().concat(platform)),
    }
}

/// How far getting hold of frpc has come.
#[derive(Clone, Copy, Debug, PartialEq, Eq, Structural)]
pub enum FrpcStage {
    /// What is there is being looked at.
    Look,
    /// The daemon's own frpc is being made executable.
    Reuse,
    /// The list of downloads is being fetched.
    Info,
    /// The directory is being made.
    Dir,
    /// The download is under way.
    Download,
    /// The download is being made executable.
    Executable,
    /// An older file is being removed.
    RemoveOld,
    /// The download is being put in its place.
    Rename,
    /// It is over.
    Over,
}

/// What happened last.
pub enum FrpcEvent {
    /// There is a file of the daemon's own that is not empty or not, and an installed frpc or none.
    Looked { managed: bool, system: Option<String> },
    /// The service of downloads answered, or it did not for this reason.
    Info(Result<InfoReply, String>),
    /// So many bytes with this hash were downloaded, or they were not for this reason.
    Downloaded(Result<(u64, String), String>),
    /// What was to be done with a file or a directory is done, or it is not for this reason.
    Done(Result<(), String>),
}

/// The model of [`FrpcEvent`].
pub enum FrpcEventView {
    Looked { managed: bool, system: Option<Seq<char>> },
    Info(Result<InfoView, Seq<char>>),
    Downloaded(Result<(u64, Seq<char>), Seq<char>>),
    Done(Result<(), Seq<char>>),
}

impl View for FrpcEvent {
    type V = FrpcEventView;

    open spec fn view(&self) -> FrpcEventView {
        match self {
            FrpcEvent::Looked { managed, system } => FrpcEventView::Looked {
                managed: *managed,
                system: opt_view(*system),
            },
            FrpcEvent::Info(Ok(r)) => FrpcEventView::Info(Ok(r@)),
            FrpcEvent::Info(Err(e)) => FrpcEventView::Info(Err(e@)),
            FrpcEvent::Downloaded(Ok(d)) => FrpcEventView::Downloaded(Ok((d.0, d.1@))),
            FrpcEvent::Downloaded(Err(e)) => FrpcEventView::Downloaded(Err(e@)),
            FrpcEvent::Done(Ok(u)) => FrpcEventView::Done(Ok(*u)),
            FrpcEvent::Done(Err(e)) => FrpcEventView::Done(Err(e@)),
        }
    }
}

/// What is to be done next.
#[derive(Debug)]
pub enum FrpcAction {
    /// Look at what is there.
    Look,
    /// Make this file executable.
    MakeExecutable(String),
    /// Fetch the list of downloads.
    FetchInfo,
    /// Make this directory.
    MakeDir(String),
    /// Download this address to this file.
    Download(String, String),
    /// Remove this file where it is there.
    RemoveOld(String),
    /// Rename the first file to the second.
    Rename(String, String),
    /// frpc is at this path.
    Ready(String),
    /// There is no frpc, for this reason. The file named goes first.
    Fail(Option<String>, String),
}

/// The model of [`FrpcAction`].
pub enum FrpcActionView {
    Look,
    MakeExecutable(Seq<char>),
    FetchInfo,
    MakeDir(Seq<char>),
    Download(Seq<char>, Seq<char>),
    RemoveOld(Seq<char>),
    Rename(Seq<char>, Seq<char>),
    Ready(Seq<char>),
    Fail(Option<Seq<char>>, Seq<char>),
}

impl View for FrpcAction {
    type V = FrpcActionView;

    open spec fn view(&self) -> FrpcActionView {
        match self {
            FrpcAction::Look => FrpcActionView::Look,
            FrpcAction::MakeExecutable(p) => FrpcActionView::MakeExecutable(p@),
            FrpcAction::FetchInfo => FrpcActionView::FetchInfo,
            FrpcAction::MakeDir(p) => FrpcActionView::MakeDir(p@),
            FrpcAction::Download(link, p) => FrpcActionView::Download(link@, p@),
            FrpcAction::RemoveOld(p) => FrpcActionView::RemoveOld(p@),
            FrpcAction::Rename(a, b) => FrpcActionView::Rename(a@, b@),
            FrpcAction::Ready(p) => FrpcActionView::Ready(p@),
            FrpcAction::Fail(p, e) => FrpcActionView::Fail(opt_view(*p), e@),
        }
    }
}

/// Getting hold of frpc.
#[derive(Debug)]
pub struct FrpcFinder {
    pub data_dir: String,
    pub arch: String,
    pub download: Option<FrpcDownload>,
    pub stage: FrpcStage,
}

/// The model of [`FrpcFinder`].
pub struct FinderView {
    pub data_dir: Seq<char>,
    pub arch: Seq<char>,
    pub download: Option<DownloadView>,
    pub stage: FrpcStage,
}

impl View for FrpcFinder {
    type V = FinderView;

    open spec fn view(&self) -> FinderView {
        FinderView {
            data_dir: self.data_dir@,
            arch: self.arch@,
            download: match self.download {
                Some(d) => Some(d@),
                None => None,
            },
            stage: self.stage,
        }
    }
}

/// The file that a download goes to before it is verified.
pub open spec fn temp_path(data_dir: Seq<char>) -> Seq<char> {
    managed_path(data_dir) + ".download"@
}

impl FinderView {
    /// Once the list was read there is a download, for a platform of this architecture.
    pub open spec fn wf(self) -> bool {
        &&& self.stage == FrpcStage::Info ==> platform_of(self.arch) is Some
        &&& self.stage == FrpcStage::Dir || self.stage == FrpcStage::Download ==> self.download
            is Some
    }

    /// Whether this is what is waited for.
    pub open spec fn expects(self, event: FrpcEventView) -> bool {
        match event {
            FrpcEventView::Looked { managed, system } => self.stage == FrpcStage::Look,
            FrpcEventView::Info(_) => self.stage == FrpcStage::Info,
            FrpcEventView::Downloaded(_) => self.stage == FrpcStage::Download,
            FrpcEventView::Done(_) => self.stage == FrpcStage::Reuse || self.stage == FrpcStage::Dir
                || self.stage == FrpcStage::Executable || self.stage == FrpcStage::RemoveOld
                || self.stage == FrpcStage::Rename,
        }
    }

    /// Another stage.
    pub open spec fn at(self, stage: FrpcStage) -> FinderView {
        FinderView { stage, ..self }
    }

    /// frpc is there.
    pub open spec fn ready(self, path: Seq<char>) -> (FinderView, FrpcActionView) {
        (self.at(FrpcStage::Over), FrpcActionView::Ready(path))
    }

    /// There is no frpc.
    pub open spec fn fail(self, message: Seq<char>) -> (FinderView, FrpcActionView) {
        (self.at(FrpcStage::Over), FrpcActionView::Fail(None, message))
    }

    /// There is no frpc, and what was downloaded goes.
    pub open spec fn discard(self, message: Seq<char>) -> (FinderView, FrpcActionView) {
        (
            self.at(FrpcStage::Over),
            FrpcActionView::Fail(Some(temp_path(self.data_dir)), message),
        )
    }

    /// What an event leads to.
    pub open spec fn stepped(self, event: FrpcEventView) -> (FinderView, FrpcActionView) {
        let managed_at = managed_path(self.data_dir);
        match event {
            FrpcEventView::Looked { managed, system } => if managed {
                (self.at(FrpcStage::Reuse), FrpcActionView::MakeExecutable(managed_at))
            } else {
                match system {
                    Some(p) => self.ready(p),
                    None => if platform_of(self.arch) is Some {
                        (self.at(FrpcStage::Info), FrpcActionView::FetchInfo)
                    } else {
                        self.fail("当前架构不支持自动下载 frpc: "@ + self.arch)
                    },
                }
            },
            FrpcEventView::Info(reply) => match offered_download(
                reply,
                platform_of(self.arch)->0,
            ) {
                Ok(d) => (
                    FinderView { download: Some(d), stage: FrpcStage::Dir, ..self },
                    FrpcActionView::MakeDir(path_join(self.data_dir, "bin"@)),
                ),
                Err(e) => self.fail(e),
            },
            FrpcEventView::Downloaded(Err(e)) => self.discard(e),
            FrpcEventView::Downloaded(Ok((bytes, hash))) => match download_complaint(
                self.download->0,
                bytes as nat,
                hash,
            ) {
                Some(e) => self.discard(e),
                None => (
                    self.at(FrpcStage::Executable),
                    FrpcActionView::MakeExecutable(temp_path(self.data_dir)),
                ),
            },
            FrpcEventView::Done(Ok(_)) => match self.stage {
                FrpcStage::Reuse => self.ready(managed_at),
                FrpcStage::Dir => (
                    self.at(FrpcStage::Download),
                    FrpcActionView::Download(self.download->0.link, temp_path(self.data_dir)),
                ),
                FrpcStage::Executable => (
                    self.at(FrpcStage::RemoveOld),
                    FrpcActionView::RemoveOld(managed_at),
                ),
                FrpcStage::RemoveOld => (
                    self.at(FrpcStage::Rename),
                    FrpcActionView::Rename(temp_path(self.data_dir), managed_at),
                ),
                _ => self.ready(managed_at),
            },
            FrpcEventView::Done(Err(e)) => match self.stage {
                FrpcStage::Reuse | FrpcStage::Executable => self.fail("设置 frpc 执行权限失败: "@ + e),
                FrpcStage::Dir => self.fail("创建 frpc 保存目录失败: "@ + e),
                FrpcStage::RemoveOld => self.fail("清理旧 frpc 失败: "@ + e),
                _ => self.fail("保存 frpc 失败: "@ + e),
            },
        }
    }
}

/// Begins to get hold of frpc for this architecture.
pub fn ensure_frpc(data_dir: &str, arch: &str) -> (res: (FrpcFinder, FrpcAction))
    ensures
        res.0@ == (FinderView {
            data_dir: data_dir@,
            arch: arch@,
            download: None,
            stage: FrpcStage::Look,
        }),
        res.0@.wf(),
        res.1@ == FrpcActionView::Look,
{
    let finder = FrpcFinder {
        data_dir: data_dir.to_owned(),
        arch: arch.to_owned(),
        download: None,
        stage: FrpcStage::Look,
    };
    (finder, FrpcAction::Look)
}

impl FrpcFinder {
    /// The file that a download goes to before it is verified.
    fn temp(&self) -> (res: String)
        ensures
            res@ == temp_path(self@.data_dir),
    {
        managed_frpc_path(self.data_dir.as_str()).concat(".download")
    }

    /// There is no frpc.
    fn fail(&mut self, message: String) -> (res: FrpcAction)
        ensures
            (final(self)@, res@) == old(self)@.fail(message@),
    {
        self.stage = FrpcStage::Over;
        FrpcAction::Fail(None, message)
    }

    /// There is no frpc, and what was downloaded goes.
    fn discard(&mut self, message: String) -> (res: FrpcAction)
        ensures
            (final(self)@, res@) == old(self)@.discard(message@),
    {
        self.stage = FrpcStage::Over;
        FrpcAction::Fail(Some(self.temp()), message)
    }

    /// What success with a file or a directory leads to.
    fn on_done(&mut self) -> (res: FrpcAction)
        requires
            old(self)@.wf(),
            old(self)@.expects(FrpcEventView::Done(Ok(()))),
        ensures
            (final(self)@, res@) == old(self)@.stepped(FrpcEventView::Done(Ok(()))),
            final(self)@.wf(),
    {
        let managed = managed_frpc_path(self.data_dir.as_str());
        match self.stage {
            FrpcStage::Dir => {
                self.stage = FrpcStage::Download;
                let link = match &self.download {
                    Some(d) => d.link.as_str().to_owned(),
                    None => String::new(),
                };
                FrpcAction::Download(link, self.temp())
            },
            FrpcStage::Executable => {
                self.stage = FrpcStage::RemoveOld;
                FrpcAction::RemoveOld(managed)
            },
            FrpcStage::RemoveOld => {
                self.stage = FrpcStage::Rename;
                FrpcAction::Rename(self.temp(), managed)
            },
            _ => {
                self.stage = FrpcStage::Over;
                FrpcAction::Ready(managed)
            },
        }
    }

    /// What failure with a file or a directory leads to.
    fn on_trouble(&mut self, e: &str) -> (res: FrpcAction)
        ensures
            (final(self)@, res@) == old(self)@.stepped(FrpcEventView::Done(Err(e@))),
    {
        let what = match self.stage {
            FrpcStage::Reuse => "设置 frpc 执行权限失败: ",
            FrpcStage::Executable => "设置 frpc 执行权限失败: ",
            FrpcStage::Dir => "创建 frpc 保存目录失败: ",
            FrpcStage::RemoveOld => "清理旧 frpc 失败: ",
            _ => "保存 frpc 失败: ",
        };
        self.fail(what.to_owned().concat(e))
    }

    /// Whether this is what is waited for.
    pub fn awaits(&self, event: &FrpcEvent) -> (res: bool)
        ensures
            res == self@.expects(event@),
    {
        match event {
            FrpcEvent::Looked { managed: _, system: _ } => self.stage == FrpcStage::Look,
            FrpcEvent::Info(_) => self.stage == FrpcStage::Info,
            FrpcEvent::Downloaded(_) => self.stage == FrpcStage::Download,
            FrpcEvent::Done(_) => self.stage == FrpcStage::Reuse || self.stage == FrpcStage::Dir
                || self.stage == FrpcStage::Executable || self.stage == FrpcStage::RemoveOld
                || self.stage == FrpcStage::Rename,
        }
    }

    /// What an event leads to.
    pub fn advance(&mut self, event: FrpcEvent) -> (res: FrpcAction)
        requires
            old(self)@.wf(),
            old(self)@.expects(event@),
        ensures
            (final(self)@, res@) == old(self)@.stepped(event@),
            final(self)@.wf(),
    {
        match event {
            FrpcEvent::Looked { managed, system } => {
                if managed {
                    self.stage = FrpcStage::Reuse;
                    return FrpcAction::MakeExecutable(managed_frpc_path(self.data_dir.as_str()));
                }
                match system {
                    Some(p) => {
                        self.stage = FrpcStage::Over;
                        FrpcAction::Ready(p)
                    },
                    None => {
                        if linux_platform(self.arch.as_str()).is_some() {
                            self.stage = FrpcStage::Info;
                            FrpcAction::FetchInfo
                        } else {
                            let message = "当前架构不支持自动下载 frpc: ".to_owned().concat(
                                self.arch.as_str(),
                            );
                            self.fail(message)
                        }
                    },
                }
            },
            FrpcEvent::Info(reply) => {
                let platform = match linux_platform(self.arch.as_str()) {
                    Some(p) => p,
                    None => "",
                };
                match read_info(reply, platform) {
                    Ok(d) => {
                        self.download = Some(d);
                        self.stage = FrpcStage::Dir;
                        FrpcAction::MakeDir(join_path(self.data_dir.as_str(), "bin"))
                    },
                    Err(e) => self.fail(e),
                }
            },
            FrpcEvent::Downloaded(Err(e)) => self.discard(e),
            FrpcEvent::Downloaded(Ok((bytes, hash))) => {
                let verdict = match &self.download {
                    Some(d) => check_download(d, bytes, hash.as_str()),
                    None => Ok(()),
                };
                match verdict {
                    Ok(_) => {
                        self.stage = FrpcStage::Executable;
                        FrpcAction::MakeExecutable(self.temp())
                    },
                    Err(e) => self.discard(e),
                }
            },
            FrpcEvent::Done(Ok(_)) => self.on_done(),
            FrpcEvent::Done(Err(e)) => self.on_trouble(e.as_str()),
        }
    }

    /// What a complete download leads to: the hash is that of the bytes that came in.
    pub fn verify_download(&mut self, digest: StreamDigest) -> (res: FrpcAction)
        requires
            old(self)@.wf(),
            old(self)@.stage == FrpcStage::Download,
            digest.wf(),
        ensures
            (final(self)@, res@) == old(self)@.stepped(
                FrpcEventView::Downloaded(
                    Ok((digest.bytes().len() as u64, hex(sha256(digest.bytes())))),
                ),
            ),
            final(self)@.wf(),
    {
        let bytes: u64 = digest.len();
        let hash = digest.finish();
        self.advance(FrpcEvent::Downloaded(Ok((bytes, hash))))
    }
}

/// A download that is not what was promised, or that broke off, leaves nothing behind: its file goes
/// and was never made executable.
pub proof fn law_bad_download_leaves_nothing(finder: FinderView, event: FrpcEventView)
    requires
        finder.wf(),
        finder.stage == FrpcStage::Download,
        finder.expects(event),
    ensures
        ({
            let bad = match event {
                FrpcEventView::Downloaded(Ok((bytes, hash))) => download_complaint(
                    finder.download->0,
                    bytes as nat,
                    hash,
                ) is Some,
                _ => true,
            };
            let (next, action) = finder.stepped(event);
            &&& bad ==> next.stage == FrpcStage::Over && (action matches FrpcActionView::Fail(
                p,
                _,
            ) && p == Some(temp_path(finder.data_dir)))
            &&& !bad ==> action == FrpcActionView::MakeExecutable(temp_path(finder.data_dir))
        }),
{
}

/// What passes as a download is not empty, has the promised size where one was promised, and the
/// promised hash where one was promised.
pub proof fn law_accepted_download_is_as_promised(promised: DownloadView, bytes: nat, hash: Seq<char>)
    ensures
        download_complaint(promised, bytes, hash) is None <==> {
            &&& bytes > 0
            &&& promised.size > 0 ==> bytes == promised.size
            &&& promised.hash.len() > 0 ==> lower(hash) == lower(promised.hash)
        },
{
}

/// What is there already is used: nothing is fetched where the daemon has its own frpc or one is
/// installed, and its own comes first.
pub proof fn law_existing_frpc_is_reused(finder: FinderView, managed: bool, system: Option<Seq<char>>)
    requires
        finder.stage == FrpcStage::Look,
    ensures
        ({
            let action = finder.stepped(FrpcEventView::Looked { managed, system }).1;
            &&& managed ==> action == FrpcActionView::MakeExecutable(managed_path(finder.data_dir))
            &&& !managed && system is Some ==> action == FrpcActionView::Ready(system->0)
            &&& managed || system is Some ==> !(action is FetchInfo)
        }),
{
}

// ----- from where to where -----

/// The download that is taken is the first for the platform, as it stands in the list.
pub proof fn law_first_download_for_the_platform(
    downloads: Seq<DownloadView>,
    platform: Seq<char>,
    i: int,
)
    requires
        0 <= i <= downloads.len(),
    ensures
        match download_from(downloads, platform, i) {
            Some(d) => exists|k: int|
                #![trigger downloads[k]]
                i <= k < downloads.len() && downloads[k] == d && d.platform == platform
                    && forall|j: int|
                    i <= j < k ==> (#[trigger] downloads[j]).platform != platform,
            None => forall|j: int|
                i <= j < downloads.len() ==> (#[trigger] downloads[j]).platform != platform,
        },
    decreases downloads.len() - i,
{
    if i < downloads.len() {
        if downloads[i].platform == platform {
            assert(downloads[i] == downloads[i]);
        } else {
            law_first_download_for_the_platform(downloads, platform, i + 1);
        }
    }
}

/// The four architectures that there are downloads for, each with its own platform, and no other.
pub proof fn law_known_platforms(arch: Seq<char>)
    ensures
        platform_of(arch) matches Some(p) ==> (arch == "x86"@ && p == "linux_386"@) || (arch
            == "x86_64"@ && p == "linux_amd64"@) || (arch == "arm"@ && p == "linux_arm"@) || (arch
            == "aarch64"@ && p == "linux_arm64"@),
        arch == "x86"@ || arch == "x86_64"@ || arch == "arm"@ || arch == "aarch64"@ ==> platform_of(
            arch,
        ) is Some,
{
}

/// The daemon keeps its own frpc in the directory `bin` below the data directory, and a download goes
/// to a file beside it until it is verified.
pub proof fn law_own_frpc_is_below_the_data_directory(data_dir: Seq<char>)
    requires
        data_dir.len() > 0,
        data_dir.last() != '/',
    ensures
        managed_path(data_dir) == data_dir + "/bin/frpc"@,
        temp_path(data_dir) == data_dir + "/bin/frpc.download"@,
        managed_path(data_dir) != temp_path(data_dir),
{
    reveal_strlit("bin");
    reveal_strlit("frpc");
    reveal_strlit(".download");
    reveal_strlit("/bin/frpc");
    reveal_strlit("/bin/frpc.download");
    let dir = path_join(data_dir, "bin"@);
    assert(dir.last() == 'n');
    assert(managed_path(data_dir) =~= data_dir + "/bin/frpc"@);
    assert(temp_path(data_dir) =~= data_dir + "/bin/frpc.download"@);
    assert(managed_path(data_dir).len() != temp_path(data_dir).len());
}

/// An installed frpc is taken from the first of the usual places where there is one, and only where
/// there is none from where it was found otherwise.
pub proof fn law_usual_places_come_first(present: Seq<bool>, found: Option<Seq<char>>)
    requires
        present.len() == 3,
    ensures
        ({
            let at = installed_from(present, found, 0);
            &&& present[0] ==> at == Some("/usr/local/bin/frpc"@)
            &&& !present[0] && present[1] ==> at == Some("/usr/bin/frpc"@)
            &&& !present[0] && !present[1] && present[2] ==> at == Some("/opt/frpc/frpc"@)
            &&& !present[0] && !present[1] && !present[2] ==> at == found
        }),
{
    reveal_with_fuel(installed_from, 4);
}

/// A download is offered exactly where the service answered with success, its answer can be read and
/// says success with the code 200, and it lists one for the platform.
pub proof fn law_download_is_offered_by_a_good_reply(
    reply: Result<InfoView, Seq<char>>,
    platform: Seq<char>,
)
    ensures
        ({
            let res = offered_download(reply, platform);
            let good = reply matches Ok(r) && 200 <= r.code && r.code <= 299 && (
            r.info matches Ok((msg, state, code, downloads)) && state == "success"@ && code == 200);
            let listed = reply->Ok_0.info->Ok_0.3;
            &&& res is Ok <==> good && exists|k: int|
                0 <= k < listed.len() && (#[trigger] listed[k]).platform == platform
            &&& res matches Ok(d) ==> d.platform == platform && listed.contains(d)
            &&& reply matches Err(e) ==> (res matches Err(m) && crate::text::finishes_with(m, e))
        }),
{
    let listed = reply->Ok_0.info->Ok_0.3;
    law_first_download_for_the_platform(listed, platform, 0);
    if let Err(e) = reply {
        let m = "获取 frpc 下载信息失败: "@ + e;
        assert(m.subrange(m.len() - e.len(), m.len() as int) =~= e);
    }
}

/// What is downloaded is the link of the download that was offered, to the file beside the daemon's own
/// frpc. Once it is verified and can be run, the old file goes, the new one takes its place, and that
/// is the frpc that is used.
pub proof fn law_verified_download_becomes_the_frpc(
    finder: FinderView,
    reply: Result<InfoView, Seq<char>>,
    bytes: u64,
    hash: Seq<char>,
)
    requires
        finder.wf(),
        finder.stage == FrpcStage::Info,
        offered_download(reply, platform_of(finder.arch)->0) is Ok,
        download_complaint(
            offered_download(reply, platform_of(finder.arch)->0)->Ok_0,
            bytes as nat,
            hash,
        ) is None,
    ensures
        ({
            let done = FrpcEventView::Done(Ok(()));
            let d = offered_download(reply, platform_of(finder.arch)->0)->Ok_0;
            let own = managed_path(finder.data_dir);
            let temp = temp_path(finder.data_dir);
            let (f1, a1) = finder.stepped(FrpcEventView::Info(reply));
            let (f2, a2) = f1.stepped(done);
            let (f3, a3) = f2.stepped(FrpcEventView::Downloaded(Ok((bytes, hash))));
            let (f4, a4) = f3.stepped(done);
            let (f5, a5) = f4.stepped(done);
            let (f6, a6) = f5.stepped(done);
            &&& a1 == FrpcActionView::MakeDir(path_join(finder.data_dir, "bin"@))
            &&& a2 == FrpcActionView::Download(d.link, temp)
            &&& a3 == FrpcActionView::MakeExecutable(temp)
            &&& a4 == FrpcActionView::RemoveOld(own)
            &&& a5 == FrpcActionView::Rename(temp, own)
            &&& a6 == FrpcActionView::Ready(own)
            &&& f1.expects(done) && f3.expects(done) && f4.expects(done) && f5.expects(done)
        }),
{
}

/// The daemon's own frpc is used once it can be run. Where there is neither that nor an installed one,
/// the list of downloads is fetched, unless there is none for this architecture.
pub proof fn law_frpc_is_fetched_only_where_needed(finder: FinderView, e: Seq<char>)
    requires
        finder.stage == FrpcStage::Look,
    ensures
        ({
            let (own, _) = finder.stepped(FrpcEventView::Looked { managed: true, system: None });
            let (next, action) = finder.stepped(
                FrpcEventView::Looked { managed: false, system: None },
            );
            &&& own.stepped(FrpcEventView::Done(Ok(()))).1 == FrpcActionView::Ready(
                managed_path(finder.data_dir),
            )
            &&& platform_of(finder.arch) is Some ==> action is FetchInfo && next.expects(
                FrpcEventView::Info(Err(e)),
            )
            &&& platform_of(finder.arch) is None ==> action is Fail
        }),
{
}

/// Whatever fails on the way ends the search without an frpc, with the reason.
pub proof fn law_search_fails_with_its_reason(finder: FinderView, reason: Seq<char>)
    requires
        finder.expects(FrpcEventView::Done(Err(reason))) || finder.expects(
            FrpcEventView::Downloaded(Err(reason)),
        ),
    ensures
        ({
            let event = if finder.stage == FrpcStage::Download {
                FrpcEventView::Downloaded(Err(reason))
            } else {
                FrpcEventView::Done(Err(reason))
            };
            let (next, action) = finder.stepped(event);
            &&& next.stage == FrpcStage::Over
            &&& action matches FrpcActionView::Fail(_, m) && crate::text::finishes_with(m, reason)
        }),
{
    let a = "设置 frpc 执行权限失败: "@ + reason;
    let b = "创建 frpc 保存目录失败: "@ + reason;
    let c = "清理旧 frpc 失败: "@ + reason;
    let d = "保存 frpc 失败: "@ + reason;
    assert(a.subrange(a.len() - reason.len(), a.len() as int) =~= reason);
    assert(b.subrange(b.len() - reason.len(), b.len() as int) =~= reason);
    assert(c.subrange(c.len() - reason.len(), c.len() as int) =~= reason);
    assert(d.subrange(d.len() - reason.len(), d.len() as int) =~= reason);
    assert(reason.subrange(reason.len() - reason.len(), reason.len() as int) =~= reason);
}

} // verus!
