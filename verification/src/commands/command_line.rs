//! Programs that are run, with their arguments and their ends.
use crate::text::views;
use vstd::prelude::*;
use vstd::string::*;

verus! {

/// A program with its arguments.
#[derive(Debug)]
pub struct CommandLine {
    pub program: String,
    pub args: Vec<String>,
}

/// The model of [`CommandLine`].
pub struct CommandView {
    pub program: Seq<char>,
    pub args: Seq<Seq<char>>,
}

impl View for CommandLine {
    type V = CommandView;

    open spec fn view(&self) -> CommandView {
        CommandView { program: self.program@, args: views(self.args@) }
    }
}

/// A program with its arguments as it is called to run as root, outside the sandbox of the service
/// where `systemd-run` is there.
pub open spec fn escalated(
    program: Seq<char>,
    args: Seq<Seq<char>>,
    is_root: bool,
    systemd_run: bool,
) -> CommandView {
    let outside = seq!["--wait"@, "--pipe"@, "--quiet"@, program];
    if systemd_run && is_root {
        CommandView { program: "systemd-run"@, args: outside + args }
    } else if systemd_run {
        CommandView { program: "sudo"@, args: seq!["-n"@, "systemd-run"@] + outside + args }
    } else if is_root {
        CommandView { program, args }
    } else {
        CommandView { program: "sudo"@, args: seq!["-n"@, program] + args }
    }
}

/// Puts a copy of each of `more` behind what is in `out`.
fn extend_with(out: &mut Vec<String>, more: &Vec<String>)
    ensures
        views(final(out)@) == views(old(out)@) + views(more@),
{
    let ghost first = views(out@);
    let mut i: usize = 0;
    assert(views(out@) =~= first + views(more@).take(0));
    while i < more.len()
        invariant
            i <= more@.len(),
            views(out@) == first + views(more@).take(i as int),
        decreases more@.len() - i,
    {
        let ghost before = views(out@);
        let arg = more[i].as_str().to_owned();
        out.push(arg);
        assert(views(out@) =~= before.push(arg@));
        i = i + 1;
        assert(views(out@) =~= first + views(more@).take(i as int));
    }
    assert(views(more@).take(i as int) =~= views(more@));
}

/// A program with its arguments as it is called to run as root: through `systemd-run` where that is
/// there, and through `sudo` where this process is not root.
pub fn build_escalated_cmd(program: &str, args: &Vec<String>, is_root: bool, systemd_run: bool) -> (res:
    CommandLine)
    ensures
        res@ == escalated(program@, views(args@), is_root, systemd_run),
{
    let mut out: Vec<String> = Vec::new();
    let called = if systemd_run {
        let called = if is_root {
            "systemd-run"
        } else {
            out.push("-n".to_owned());
            out.push("systemd-run".to_owned());
            "sudo"
        };
        out.push("--wait".to_owned());
        out.push("--pipe".to_owned());
        out.push("--quiet".to_owned());
        out.push(program.to_owned());
        called
    } else if is_root {
        program
    } else {
        out.push("-n".to_owned());
        out.push(program.to_owned());
        "sudo"
    };
    extend_with(&mut out, args);
    let res = CommandLine { program: called.to_owned(), args: out };
    proof {
        let e = escalated(program@, views(args@), is_root, systemd_run);
        assert(res@.args =~= e.args);
    }
    res
}

/// A call of a program with two arguments.
pub fn command2(program: &str, a: &str, b: &str) -> (res: CommandLine)
    ensures
        res@ == (CommandView { program: program@, args: seq![a@, b@] }),
{
    let mut args: Vec<String> = Vec::new();
    args.push(a.to_owned());
    args.push(b.to_owned());
    let res = CommandLine { program: program.to_owned(), args };
    assert(res@.args =~= seq![a@, b@]);
    res
}

/// A call of a program with three arguments.
pub fn command3(program: &str, a: &str, b: &str, c: &str) -> (res: CommandLine)
    ensures
        res@ == (CommandView { program: program@, args: seq![a@, b@, c@] }),
{
    let mut args: Vec<String> = Vec::new();
    args.push(a.to_owned());
    args.push(b.to_owned());
    args.push(c.to_owned());
    let res = CommandLine { program: program.to_owned(), args };
    assert(res@.args =~= seq![a@, b@, c@]);
    res
}

/// What became of running a program.
#[derive(Debug)]
pub enum RunOutcome {
    /// It could not be run, for this reason.
    NotRun(String),
    /// It ended, with success or without, and printed this to its error output.
    Ended { success: bool, stderr: String },
}

/// The model of [`RunOutcome`].
pub enum OutcomeView {
    NotRun(Seq<char>),
    Ended { success: bool, stderr: Seq<char> },
}

impl View for RunOutcome {
    type V = OutcomeView;

    open spec fn view(&self) -> OutcomeView {
        match self {
            RunOutcome::NotRun(e) => OutcomeView::NotRun(e@),
            RunOutcome::Ended { success, stderr } => OutcomeView::Ended {
                success: *success,
                stderr: stderr@,
            },
        }
    }
}

/// A program and its arguments stand at the end of the call, in their order and without a change. In
/// front of them stands `sudo -n` exactly where this process is not root, and behind that the call of
/// `systemd-run`, which waits and passes the output on, exactly where it is there.
pub proof fn law_escalation_only_puts_something_in_front(
    program: Seq<char>,
    args: Seq<Seq<char>>,
    is_root: bool,
    systemd_run: bool,
)
    ensures
        ({
            let call = escalated(program, args, is_root, systemd_run);
            let sudo = if is_root {
                Seq::<Seq<char>>::empty()
            } else {
                seq!["sudo"@, "-n"@]
            };
            let outside = if systemd_run {
                seq!["systemd-run"@, "--wait"@, "--pipe"@, "--quiet"@]
            } else {
                Seq::<Seq<char>>::empty()
            };
            seq![call.program] + call.args == sudo + outside + seq![program] + args
        }),
{
    let call = escalated(program, args, is_root, systemd_run);
    let sudo = if is_root {
        Seq::<Seq<char>>::empty()
    } else {
        seq!["sudo"@, "-n"@]
    };
    let outside = if systemd_run {
        seq!["systemd-run"@, "--wait"@, "--pipe"@, "--quiet"@]
    } else {
        Seq::<Seq<char>>::empty()
    };
    assert(seq![call.program] + call.args =~= sudo + outside + seq![program] + args);
}

} // verus!
