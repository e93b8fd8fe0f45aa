//! Replacing the program by hand, where the package manager cannot do it.
use super::command_line::{CommandLine, CommandView, OutcomeView, RunOutcome, command3};
use crate::text::{ends_with, finishes_with, opt_str, same_text, views};
use vstd::prelude::*;
use vstd::string::*;

verus! {

/// The places where the program is replaced: where it runs from, if that is known and has the name
/// of the program, and then the usual ones.
pub open spec fn replace_places(exe: Option<Seq<char>>) -> Seq<Seq<char>> {
    let usual = "/usr/bin/chmlfrp-toolbox-daemon"@;
    let local = "/usr/local/bin/chmlfrp-toolbox-daemon"@;
    match exe {
        Some(p) => if !finishes_with(p, "chmlfrp-toolbox-daemon"@) {
            seq![usual, local]
        } else if p == usual {
            seq![usual, local]
        } else if p == local {
            seq![local, usual]
        } else {
            seq![p, usual, local]
        },
        None => seq![usual, local],
    }
}

/// The places where the program is replaced, the first choice first and none twice.
pub fn dest_candidates(exe: Option<&str>) -> (res: Vec<String>)
    ensures
        views(res@) == replace_places(opt_str(exe)),
{
    let usual = "/usr/bin/chmlfrp-toolbox-daemon";
    let local = "/usr/local/bin/chmlfrp-toolbox-daemon";
    proof {
        reveal_strlit("/usr/bin/chmlfrp-toolbox-daemon");
        reveal_strlit("/usr/local/bin/chmlfrp-toolbox-daemon");
        assert(usual@.len() != local@.len());
    }
    let mut out: Vec<String> = Vec::new();
    let mut skip_usual = false;
    let mut skip_local = false;
    if let Some(p) = exe {
        if ends_with(p, "chmlfrp-toolbox-daemon") {
            out.push(p.to_owned());
            skip_usual = same_text(p, usual);
            skip_local = same_text(p, local);
        }
    }
    if !skip_usual {
        out.push(usual.to_owned());
    }
    if !skip_local {
        out.push(local.to_owned());
    }
    assert(views(out@) =~= replace_places(opt_str(exe)));
    out
}

/// Every place is named once, and the usual ones are always among them.
pub proof fn law_replace_places_are_distinct(exe: Option<Seq<char>>)
    ensures
        replace_places(exe).no_duplicates(),
        replace_places(exe).contains("/usr/bin/chmlfrp-toolbox-daemon"@),
        replace_places(exe).contains("/usr/local/bin/chmlfrp-toolbox-daemon"@),
{
    let usual = "/usr/bin/chmlfrp-toolbox-daemon"@;
    let local = "/usr/local/bin/chmlfrp-toolbox-daemon"@;
    reveal_strlit("/usr/bin/chmlfrp-toolbox-daemon");
    reveal_strlit("/usr/local/bin/chmlfrp-toolbox-daemon");
    assert(usual.len() != local.len());
    let places = replace_places(exe);
    assert(places[0] == usual || places[1] == usual);
    assert(places[0] == local || places[1] == local || places[2] == local);
}

/// What the replacement waits for.
#[derive(Clone, Copy, Debug, PartialEq, Eq, Structural)]
pub enum ManualStage {
    /// The empty directory.
    Prepare,
    /// The end of the unpacking.
    Unpack,
    /// Whether the program is in the package.
    Look,
    /// The end of the copying.
    Copy,
    /// Nothing.
    Over,
}

/// What happened last.
#[derive(Debug)]
pub enum ManualEvent {
    /// The directory is there and empty, or it is not for this reason.
    Prepared(Result<(), String>),
    /// The program that was run has ended.
    Ran(RunOutcome),
    /// The program is in the package or not, and this process runs from this path.
    Looked(bool, Option<String>),
}

/// The model of [`ManualEvent`].
pub enum ManualEventView {
    Prepared(Result<(), Seq<char>>),
    Ran(OutcomeView),
    Looked(bool, Option<Seq<char>>),
}

impl View for ManualEvent {
    type V = ManualEventView;

    open spec fn view(&self) -> ManualEventView {
        match self {
            ManualEvent::Prepared(Ok(u)) => ManualEventView::Prepared(Ok(*u)),
            ManualEvent::Prepared(Err(e)) => ManualEventView::Prepared(Err(e@)),
            ManualEvent::Ran(o) => ManualEventView::Ran(o@),
            ManualEvent::Looked(b, exe) => ManualEventView::Looked(
                *b,
                match exe {
                    Some(p) => Some(p@),
                    None => None,
                },
            ),
        }
    }
}

/// What is to be done next.
#[derive(Debug)]
pub enum ManualAction {
    /// Make this directory anew.
    Prepare(String),
    /// Run this as the user that this process is.
    Run(CommandLine),
    /// Look whether this file is there.
    Look(String),
    /// Run this as root.
    RunAsRoot(CommandLine),
    /// It is over. The directory goes where that is said, and this is the result.
    Done(bool, Result<(), String>),
}

/// The model of [`ManualAction`].
pub enum ManualActionView {
    Prepare(Seq<char>),
    Run(CommandView),
    Look(Seq<char>),
    RunAsRoot(CommandView),
    Done(bool, Result<(), Seq<char>>),
}

impl View for ManualAction {
    type V = ManualActionView;

    open spec fn view(&self) -> ManualActionView {
        match self {
            ManualAction::Prepare(p) => ManualActionView::Prepare(p@),
            ManualAction::Run(c) => ManualActionView::Run(c@),
            ManualAction::Look(p) => ManualActionView::Look(p@),
            ManualAction::RunAsRoot(c) => ManualActionView::RunAsRoot(c@),
            ManualAction::Done(b, Ok(u)) => ManualActionView::Done(*b, Ok(*u)),
            ManualAction::Done(b, Err(e)) => ManualActionView::Done(*b, Err(e@)),
        }
    }
}

/// The replacement of the program by hand, from the unpacked package.
#[derive(Debug)]
pub struct ManualInstall {
    pub pkg_path: String,
    pub extract_dir: String,
    pub dests: Vec<String>,
    /// The place among `dests` that is being tried.
    pub at: usize,
    pub stage: ManualStage,
}

/// The model of [`ManualInstall`].
pub struct ManualView {
    pub pkg_path: Seq<char>,
    pub extract_dir: Seq<char>,
    pub dests: Seq<Seq<char>>,
    pub at: nat,
    pub stage: ManualStage,
}

impl View for ManualInstall {
    type V = ManualView;

    open spec fn view(&self) -> ManualView {
        ManualView {
            pkg_path: self.pkg_path@,
            extract_dir: self.extract_dir@,
            dests: views(self.dests@),
            at: self.at as nat,
            stage: self.stage,
        }
    }
}

impl ManualView {
    /// While the program is being copied there is a place that it is copied to.
    pub open spec fn wf(self) -> bool {
        self.stage == ManualStage::Copy ==> self.at < self.dests.len()
    }

    /// Whether this is what the replacement waits for.
    pub open spec fn expects(self, event: ManualEventView) -> bool {
        match event {
            ManualEventView::Prepared(_) => self.stage == ManualStage::Prepare,
            ManualEventView::Ran(_) => self.stage == ManualStage::Unpack || self.stage
                == ManualStage::Copy,
            ManualEventView::Looked(_, _) => self.stage == ManualStage::Look,
        }
    }

    /// The replacement at another stage.
    pub open spec fn at_stage(self, stage: ManualStage) -> ManualView {
        ManualView { stage, ..self }
    }

    /// The unpacked program.
    pub open spec fn source(self) -> Seq<char> {
        self.extract_dir + "/usr/bin/chmlfrp-toolbox-daemon"@
    }

    /// The call that copies the program to its next place.
    pub open spec fn copy(self) -> ManualActionView {
        ManualActionView::RunAsRoot(
            CommandView {
                program: "install"@,
                args: seq!["-m"@, "755"@, self.source(), self.dests[self.at as int]],
            },
        )
    }

    /// The replacement failed before anything was copied.
    pub open spec fn fail(self, message: Seq<char>) -> (ManualView, ManualActionView) {
        (self.at_stage(ManualStage::Over), ManualActionView::Done(false, Err(message)))
    }

    /// Copying to the current place failed: the next one is tried, if there is one.
    pub open spec fn missed(self, reason: Seq<char>) -> (ManualView, ManualActionView) {
        if self.at + 1 < self.dests.len() {
            let next = ManualView { at: self.at + 1, ..self };
            (next, next.copy())
        } else {
            (
                self.at_stage(ManualStage::Over),
                ManualActionView::Done(
                    true,
                    Err(
                        "降级安装失败：写入 "@ + self.dests[self.at as int] + " 失败: "@ + reason
                            + "（sudoers 可能缺少 systemd-run install 规则，请重新运行安装脚本）"@,
                    ),
                ),
            )
        }
    }

    /// What an event leads to.
    pub open spec fn stepped(self, event: ManualEventView) -> (ManualView, ManualActionView) {
        match event {
            ManualEventView::Prepared(Err(e)) => self.fail("创建解压目录失败: "@ + e),
            ManualEventView::Prepared(Ok(_)) => (
                self.at_stage(ManualStage::Unpack),
                ManualActionView::Run(
                    CommandView {
                        program: "dpkg-deb"@,
                        args: seq!["-x"@, self.pkg_path, self.extract_dir],
                    },
                ),
            ),
            ManualEventView::Looked(present, exe) => if present {
                let next = ManualView {
                    dests: replace_places(exe),
                    at: 0,
                    stage: ManualStage::Copy,
                    ..self
                };
                (next, next.copy())
            } else {
                self.fail("deb 包中未找到二进制文件 usr/bin/chmlfrp-toolbox-daemon"@)
            },
            ManualEventView::Ran(outcome) => if self.stage == ManualStage::Unpack {
                match outcome {
                    OutcomeView::NotRun(e) => self.fail("执行 dpkg-deb 失败: "@ + e),
                    OutcomeView::Ended { success, stderr } => if success {
                        (
                            self.at_stage(ManualStage::Look),
                            ManualActionView::Look(self.source()),
                        )
                    } else {
                        self.fail("dpkg-deb 解包失败: "@ + stderr)
                    },
                }
            } else {
                match outcome {
                    OutcomeView::NotRun(e) => self.missed(e),
                    OutcomeView::Ended { success, stderr } => if success {
                        (
                            self.at_stage(ManualStage::Over),
                            ManualActionView::Done(true, Ok(())),
                        )
                    } else {
                        self.missed(stderr)
                    },
                }
            },
        }
    }
}

/// Begins to replace the program by hand from a package.
pub fn manual_install_deb(pkg_path: &str, updates_base: &str) -> (res: (ManualInstall, ManualAction))
    ensures
        res.0@ == (ManualView {
            pkg_path: pkg_path@,
            extract_dir: updates_base@ + "/extract"@,
            dests: Seq::empty(),
            at: 0,
            stage: ManualStage::Prepare,
        }),
        res.0@.wf(),
        res.1@ == ManualActionView::Prepare(updates_base@ + "/extract"@),
{
    let extract_dir = updates_base.to_owned().concat("/extract");
    let dir = extract_dir.as_str().to_owned();
    let manual = ManualInstall {
        pkg_path: pkg_path.to_owned(),
        extract_dir,
        dests: Vec::new(),
        at: 0,
        stage: ManualStage::Prepare,
    };
    assert(manual@.dests =~= Seq::<Seq<char>>::empty());
    (manual, ManualAction::Prepare(dir))
}

impl ManualInstall {
    /// The unpacked program.
    fn source(&self) -> (res: String)
        ensures
            res@ == self@.source(),
    {
        self.extract_dir.as_str().to_owned().concat("/usr/bin/chmlfrp-toolbox-daemon")
    }

    /// The call that copies the program to its next place.
    fn copy(&self) -> (res: ManualAction)
        requires
            self@.at < self@.dests.len(),
        ensures
            res@ == self@.copy(),
    {
        let mut args: Vec<String> = Vec::new();
        args.push("-m".to_owned());
        args.push("755".to_owned());
        args.push(self.source());
        args.push(self.dests[self.at].as_str().to_owned());
        let command = CommandLine { program: "install".to_owned(), args };
        assert(command@.args =~= seq!["-m"@, "755"@, self@.source(), self@.dests[self@.at as int]]);
        ManualAction::RunAsRoot(command)
    }

    /// The replacement failed before anything was copied.
    fn fail(&mut self, message: String) -> (res: ManualAction)
        ensures
            (final(self)@, res@) == old(self)@.fail(message@),
    {
        self.stage = ManualStage::Over;
        ManualAction::Done(false, Err(message))
    }

    /// Copying to the current place failed.
    fn miss(&mut self, reason: &str) -> (res: ManualAction)
        requires
            old(self)@.at < old(self)@.dests.len(),
        ensures
            (final(self)@, res@) == old(self)@.missed(reason@),
    {
        assert(self@.dests.len() == self.dests@.len());
        if self.at < self.dests.len() - 1 {
            self.at = self.at + 1;
            return self.copy();
        }
        self.stage = ManualStage::Over;
        let message = "降级安装失败：写入 ".to_owned().concat(self.dests[self.at].as_str()).concat(
            " 失败: ",
        ).concat(reason).concat("（sudoers 可能缺少 systemd-run install 规则，请重新运行安装脚本）");
        ManualAction::Done(true, Err(message))
    }

    /// Whether this is what the replacement waits for.
    pub fn awaits(&self, event: &ManualEvent) -> (res: bool)
        ensures
            res == self@.expects(event@),
    {
        match event {
            ManualEvent::Prepared(_) => self.stage == ManualStage::Prepare,
            ManualEvent::Ran(_) => self.stage == ManualStage::Unpack || self.stage
                == ManualStage::Copy,
            ManualEvent::Looked(_, _) => self.stage == ManualStage::Look,
        }
    }

    /// What an event leads to.
    pub fn advance(&mut self, event: ManualEvent) -> (res: ManualAction)
        requires
            old(self)@.wf(),
            old(self)@.expects(event@),
        ensures
            (final(self)@, res@) == old(self)@.stepped(event@),
            final(self)@.wf(),
    {
        match event {
            ManualEvent::Prepared(Err(e)) => {
                self.fail("创建解压目录失败: ".to_owned().concat(e.as_str()))
            },
            ManualEvent::Prepared(Ok(_)) => {
                self.stage = ManualStage::Unpack;
                ManualAction::Run(
                    command3("dpkg-deb", "-x", self.pkg_path.as_str(), self.extract_dir.as_str()),
                )
            },
            ManualEvent::Looked(present, exe) => {
                if !present {
                    return self.fail(
                        "deb 包中未找到二进制文件 usr/bin/chmlfrp-toolbox-daemon".to_owned(),
                    );
                }
                self.dests = match &exe {
                    Some(p) => dest_candidates(Some(p.as_str())),
                    None => dest_candidates(None),
                };
                self.at = 0;
                self.stage = ManualStage::Copy;
                assert(self@.dests.len() == self.dests@.len());
                self.copy()
            },
            ManualEvent::Ran(outcome) => {
                if self.stage == ManualStage::Unpack {
                    match outcome {
                        RunOutcome::NotRun(e) => {
                            self.fail("执行 dpkg-deb 失败: ".to_owned().concat(e.as_str()))
                        },
                        RunOutcome::Ended { success, stderr } => {
                            if success {
                                self.stage = ManualStage::Look;
                                ManualAction::Look(self.source())
                            } else {
                                self.fail("dpkg-deb 解包失败: ".to_owned().concat(stderr.as_str()))
                            }
                        },
                    }
                } else {
                    match outcome {
                        RunOutcome::NotRun(e) => self.miss(e.as_str()),
                        RunOutcome::Ended { success, stderr } => {
                            if success {
                                self.stage = ManualStage::Over;
                                ManualAction::Done(true, Ok(()))
                            } else {
                                self.miss(stderr.as_str())
                            }
                        },
                    }
                }
            },
        }
    }
}

/// Whether an event says that the program that was run has ended with success.
pub open spec fn copied(event: ManualEventView) -> bool {
    event matches ManualEventView::Ran(OutcomeView::Ended { success, stderr }) && success
}

/// A replacement succeeds only right after the program was copied to one of the places, and a
/// place that failed is not tried again.
pub proof fn law_replacement_needs_a_copy(manual: ManualView, event: ManualEventView)
    requires
        manual.wf(),
        manual.expects(event),
    ensures
        ({
            let (next, action) = manual.stepped(event);
            &&& next.wf()
            &&& (action matches ManualActionView::Done(_, r) && r is Ok) <==> (manual.stage
                == ManualStage::Copy && copied(event))
            &&& manual.stage == ManualStage::Copy && next.stage == ManualStage::Copy ==> next.at
                == manual.at + 1 && next.dests == manual.dests
            &&& next.stage == ManualStage::Over <==> action is Done
        }),
{
    if let ManualEventView::Looked(_, exe) = event {
        law_replace_places_are_distinct(exe);
    }
}

/// The program is replaced first where it runs from, where that has the name of the program, and else
/// at the usual place.
pub proof fn law_running_program_comes_first(exe: Option<Seq<char>>)
    ensures
        ({
            let places = replace_places(exe);
            &&& exe matches Some(p) ==> (finishes_with(p, "chmlfrp-toolbox-daemon"@) ==> places[0] == p)
            &&& exe matches Some(p) ==> (!finishes_with(p, "chmlfrp-toolbox-daemon"@)
                ==> !places.contains(p) && places[0] == "/usr/bin/chmlfrp-toolbox-daemon"@)
            &&& exe is None ==> places[0] == "/usr/bin/chmlfrp-toolbox-daemon"@
            &&& 2 <= places.len() <= 3
        }),
{
    let usual = "/usr/bin/chmlfrp-toolbox-daemon"@;
    let local = "/usr/local/bin/chmlfrp-toolbox-daemon"@;
    let name = "chmlfrp-toolbox-daemon"@;
    reveal_strlit("/usr/bin/chmlfrp-toolbox-daemon");
    reveal_strlit("/usr/local/bin/chmlfrp-toolbox-daemon");
    reveal_strlit("chmlfrp-toolbox-daemon");
    assert(usual.subrange(usual.len() - name.len(), usual.len() as int) =~= name);
    assert(local.subrange(local.len() - name.len(), local.len() as int) =~= name);
    if let Some(p) = exe {
        if !finishes_with(p, name) {
            let places = replace_places(exe);
            if places.contains(p) {
                let i = choose|i: int| 0 <= i < places.len() && places[i] == p;
                assert(places[i] == usual || places[i] == local);
            }
        }
    }
}

/// The package is unpacked into the directory that was made for it, the program is looked for there,
/// and it is from there that it is copied, as root and so that everybody can run it, to the first of
/// the places.
pub proof fn law_program_is_copied_from_the_package(manual: ManualView, exe: Option<Seq<char>>)
    ensures
        ({
            let program = manual.extract_dir + "/usr/bin/chmlfrp-toolbox-daemon"@;
            let unpack = manual.stepped(ManualEventView::Prepared(Ok(()))).1;
            let look = manual.at_stage(ManualStage::Unpack).stepped(
                ManualEventView::Ran(OutcomeView::Ended { success: true, stderr: Seq::empty() }),
            ).1;
            let (next, copy) = manual.stepped(ManualEventView::Looked(true, exe));
            &&& unpack matches ManualActionView::Run(c) && c.program == "dpkg-deb"@ && c.args
                == seq!["-x"@, manual.pkg_path, manual.extract_dir]
            &&& look == ManualActionView::Look(program)
            &&& copy matches ManualActionView::RunAsRoot(c) && c.program == "install"@ && c.args
                == seq!["-m"@, "755"@, program, replace_places(exe)[0]]
            &&& next.dests == replace_places(exe)
            &&& next.pkg_path == manual.pkg_path
            &&& next.extract_dir == manual.extract_dir
        }),
{
}

/// Where copying to a place fails, the program is copied to the next one, and once there is none left
/// the replacement fails with the reason.
pub proof fn law_failed_copy_goes_to_the_next_place(manual: ManualView, reason: Seq<char>)
    requires
        manual.wf(),
        manual.stage == ManualStage::Copy,
    ensures
        ({
            let program = manual.extract_dir + "/usr/bin/chmlfrp-toolbox-daemon"@;
            let (a, x) = manual.stepped(
                ManualEventView::Ran(OutcomeView::Ended { success: false, stderr: reason }),
            );
            let (b, y) = manual.stepped(ManualEventView::Ran(OutcomeView::NotRun(reason)));
            &&& a == b && x == y
            &&& manual.at + 1 < manual.dests.len() ==> {
                &&& x matches ManualActionView::RunAsRoot(c) && c.program == "install"@ && c.args
                    == seq!["-m"@, "755"@, program, manual.dests[manual.at as int + 1]]
                &&& a.stage == ManualStage::Copy
            }
            &&& manual.at + 1 == manual.dests.len() ==> (x matches ManualActionView::Done(
                remove,
                Err(m),
            ) && remove && crate::text::has_text(m, reason) && crate::text::has_text(
                m,
                manual.dests[manual.at as int],
            ))
        }),
{
    let place = manual.dests[manual.at as int];
    let tail = "（sudoers 可能缺少 systemd-run install 规则，请重新运行安装脚本）"@;
    let m = "降级安装失败：写入 "@ + place + " 失败: "@ + reason + tail;
    let i = "降级安装失败：写入 "@.len() as int;
    let j = i + place.len() + " 失败: "@.len();
    assert(m.subrange(i, i + place.len()) =~= place);
    assert(m.subrange(j, j + reason.len()) =~= reason);
    assert(crate::text::occurs_at(m, place, i));
    assert(crate::text::occurs_at(m, reason, j));
}

/// What fails before anything is copied ends the replacement without success.
pub proof fn law_replacement_fails_with_its_reason(
    manual: ManualView,
    reason: Seq<char>,
    exe: Option<Seq<char>>,
)
    ensures
        ({
            let unpacking = manual.at_stage(ManualStage::Unpack);
            &&& manual.stepped(
                ManualEventView::Prepared(Err(reason)),
            ).1 matches ManualActionView::Done(_, Err(m)) && finishes_with(m, reason)
            &&& unpacking.stepped(
                ManualEventView::Ran(OutcomeView::NotRun(reason)),
            ).1 matches ManualActionView::Done(_, Err(m)) && finishes_with(m, reason)
            &&& unpacking.stepped(
                ManualEventView::Ran(OutcomeView::Ended { success: false, stderr: reason }),
            ).1 matches ManualActionView::Done(_, Err(m)) && finishes_with(m, reason)
            &&& manual.stepped(
                ManualEventView::Looked(false, exe),
            ).1 matches ManualActionView::Done(_, Err(m))
        }),
{
    let a = "创建解压目录失败: "@ + reason;
    let b = "执行 dpkg-deb 失败: "@ + reason;
    let c = "dpkg-deb 解包失败: "@ + reason;
    assert(a.subrange(a.len() - reason.len(), a.len() as int) =~= reason);
    assert(b.subrange(b.len() - reason.len(), b.len() as int) =~= reason);
    assert(c.subrange(c.len() - reason.len(), c.len() as int) =~= reason);
}

/// What was unpacked is there to be removed once the program has begun to be copied, and not before.
pub proof fn law_unpacked_files_are_removed(manual: ManualView, event: ManualEventView)
    requires
        manual.wf(),
        manual.expects(event),
    ensures
        manual.stepped(event).1 matches ManualActionView::Done(remove, _) ==> remove == (manual.stage
            == ManualStage::Copy),
{
}

} // verus!
