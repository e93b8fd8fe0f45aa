//! The service itself: its state, and its logs.
use super::command_line::{CommandLine, CommandView, OutcomeView, RunOutcome};
use super::{CommandResult, RpcError, RpcErrorView, answer_view, rpc_error};
use crate::json::{Json, JsonMember, JsonView, count_view, member, member_views};
use crate::text::{decimal, decimal_text, opt_view, same_text, trim, trimmed};
use vstd::prelude::*;
use vstd::string::*;

verus! {

// ----- starting and stopping -----

/// What the service is to do.
#[derive(Debug)]
pub struct ServiceControlParams {
    pub action: String,
}

/// What can be done with the service.
#[derive(Clone, Copy, Debug, PartialEq, Eq, Structural)]
pub enum ServiceAction {
    Status,
    Restart,
    Stop,
    Start,
}

/// The name of an action.
pub open spec fn action_name(action: ServiceAction) -> Seq<char> {
    match action {
        ServiceAction::Status => "status"@,
        ServiceAction::Restart => "restart"@,
        ServiceAction::Stop => "stop"@,
        ServiceAction::Start => "start"@,
    }
}

/// A call of `systemctl`, through `sudo` where this process is not root.
pub open spec fn systemctl(args: Seq<Seq<char>>, is_root: bool) -> CommandView {
    if is_root {
        CommandView { program: "systemctl"@, args }
    } else {
        CommandView { program: "sudo"@, args: seq!["systemctl"@] + args }
    }
}

/// A call of `systemctl` on the service, through `sudo` where this process is not root.
fn build_systemctl_cmd(verb: &str, is_root: bool) -> (res: CommandLine)
    ensures
        res@ == systemctl(seq![verb@, "chmlfrp-toolbox-daemon"@], is_root),
{
    let mut args: Vec<String> = Vec::new();
    let program = if is_root {
        "systemctl"
    } else {
        args.push("systemctl".to_owned());
        "sudo"
    };
    args.push(verb.to_owned());
    args.push("chmlfrp-toolbox-daemon".to_owned());
    let res = CommandLine { program: program.to_owned(), args };
    assert(res@.args =~= systemctl(seq![verb@, "chmlfrp-toolbox-daemon"@], is_root).args);
    res
}

/// What a request comes to.
#[derive(Debug)]
pub enum ServicePlan {
    /// The state of the service is asked for.
    Status,
    /// This is run, and its end decides.
    Run(ServiceAction, CommandLine),
}

/// What a request to control the service comes to. An unknown action is an error.
pub fn service_control(params: &ServiceControlParams, is_root: bool) -> (res: Result<
    ServicePlan,
    RpcError,
>)
    ensures
        match res {
            Ok(ServicePlan::Status) => params.action@ == action_name(ServiceAction::Status),
            Ok(ServicePlan::Run(action, command)) => {
                &&& action != ServiceAction::Status
                &&& params.action@ == action_name(action)
                &&& command@ == systemctl(
                    seq![action_name(action), "chmlfrp-toolbox-daemon"@],
                    is_root,
                )
            },
            Err(e) => {
                &&& forall|a: ServiceAction| params.action@ != #[trigger] action_name(a)
                &&& e@ == rpc_error(
                    "INVALID_PARAMS"@,
                    "不支持的操作: "@ + params.action@ + "（支持 start/stop/restart/status）"@,
                )
            },
        },
{
    let name = params.action.as_str();
    if same_text(name, "status") {
        Ok(ServicePlan::Status)
    } else if same_text(name, "restart") {
        Ok(ServicePlan::Run(ServiceAction::Restart, build_systemctl_cmd("restart", is_root)))
    } else if same_text(name, "stop") {
        Ok(ServicePlan::Run(ServiceAction::Stop, build_systemctl_cmd("stop", is_root)))
    } else if same_text(name, "start") {
        Ok(ServicePlan::Run(ServiceAction::Start, build_systemctl_cmd("start", is_root)))
    } else {
        Err(
            RpcError::new(
                "INVALID_PARAMS",
                "不支持的操作: ".to_owned().concat(name).concat("（支持 start/stop/restart/status）"),
            ),
        )
    }
}

/// What is said of an action that was carried out.
pub open spec fn done_message(action: ServiceAction) -> Seq<char> {
    match action {
        ServiceAction::Restart => "重启指令已发送，服务将在几秒后重新连接"@,
        ServiceAction::Stop => "停止指令已发送"@,
        _ => "启动指令已发送"@,
    }
}

/// How a message about an action that failed begins.
pub open spec fn failed_prefix(action: ServiceAction) -> Seq<char> {
    match action {
        ServiceAction::Restart => "重启失败: "@,
        ServiceAction::Stop => "停止失败: "@,
        _ => "启动失败: "@,
    }
}

/// The answer to an action that was carried out.
pub open spec fn done_json(message: Seq<char>) -> JsonView {
    super::daemon_config::changed_json(message)
}

/// What the end of an action means.
pub open spec fn control_result(action: ServiceAction, outcome: OutcomeView) -> Result<
    JsonView,
    RpcErrorView,
> {
    match outcome {
        OutcomeView::NotRun(e) => Err(
            rpc_error("SERVICE_CONTROL_FAILED"@, "执行 systemctl 失败: "@ + e),
        ),
        OutcomeView::Ended { success, stderr } => if success {
            Ok(done_json(done_message(action)))
        } else {
            Err(rpc_error("SERVICE_CONTROL_FAILED"@, failed_prefix(action) + stderr))
        },
    }
}

/// What the end of an action means: success is answered, anything else is an error.
pub fn judge_control(action: ServiceAction, outcome: RunOutcome) -> (res: CommandResult)
    ensures
        answer_view(res) == control_result(action, outcome@),
{
    match outcome {
        RunOutcome::NotRun(e) => Err(
            RpcError::new(
                "SERVICE_CONTROL_FAILED",
                "执行 systemctl 失败: ".to_owned().concat(e.as_str()),
            ),
        ),
        RunOutcome::Ended { success, stderr } => {
            if success {
                let message = match action {
                    ServiceAction::Restart => "重启指令已发送，服务将在几秒后重新连接",
                    ServiceAction::Stop => "停止指令已发送",
                    _ => "启动指令已发送",
                };
                Ok(super::daemon_config::changed(message))
            } else {
                let prefix = match action {
                    ServiceAction::Restart => "重启失败: ",
                    ServiceAction::Stop => "停止失败: ",
                    _ => "启动失败: ",
                };
                Err(
                    RpcError::new(
                        "SERVICE_CONTROL_FAILED",
                        prefix.to_owned().concat(stderr.as_str()),
                    ),
                )
            }
        },
    }
}

/// A state in words, `unknown` where it could not be asked for.
pub open spec fn state_text(printed: Option<Seq<char>>) -> Seq<char> {
    match printed {
        Some(s) => trimmed(s),
        None => "unknown"@,
    }
}

/// The state of the service as it is answered.
pub open spec fn status_json(active: Option<Seq<char>>, enabled: Option<Seq<char>>) -> JsonView {
    JsonView::Object(
        seq![
            ("success"@, JsonView::Bool(true)),
            (
                "status"@,
                JsonView::Object(
                    seq![
                        ("activeState"@, JsonView::Text(state_text(active))),
                        ("enabledState"@, JsonView::Text(state_text(enabled))),
                    ],
                ),
            ),
        ],
    )
}

/// A state in words, `unknown` where it could not be asked for.
fn make_state_text(printed: Option<String>) -> (res: String)
    ensures
        res@ == state_text(opt_view(printed)),
{
    match printed {
        Some(s) => trim(s.as_str()),
        None => "unknown".to_owned(),
    }
}

/// The state of the service as it is answered, from what `systemctl is-active` and
/// `systemctl is-enabled` printed.
pub fn get_service_status(active: Option<String>, enabled: Option<String>) -> (res: Json)
    ensures
        res@ == status_json(opt_view(active), opt_view(enabled)),
{
    let active_state = make_state_text(active);
    let enabled_state = make_state_text(enabled);
    let mut states: Vec<JsonMember> = Vec::new();
    states.push(member("activeState", Json::string(active_state.as_str())));
    states.push(member("enabledState", Json::string(enabled_state.as_str())));
    assert(member_views(states@) =~= seq![
        ("activeState"@, JsonView::Text(active_state@)),
        ("enabledState"@, JsonView::Text(enabled_state@)),
    ]);
    let mut members: Vec<JsonMember> = Vec::new();
    members.push(member("success", Json::Bool(true)));
    members.push(member("status", Json::object(states)));
    let res = Json::object(members);
    assert(member_views(members@) =~= status_json(opt_view(active), opt_view(enabled))->Object_0);
    res
}

// ----- logs -----

/// How many lines are asked for.
#[derive(Clone, Copy, Debug, PartialEq, Eq, Structural)]
pub struct GetLogsParams {
    pub lines: Option<usize>,
}

/// How many lines are shown: 50 where nothing is said, and at most 500.
pub open spec fn line_count(lines: Option<usize>) -> int {
    let asked = match lines {
        Some(n) => n as int,
        None => 50,
    };
    if asked < 500 {
        asked
    } else {
        500
    }
}

/// How many lines are shown: 50 where nothing is said, and at most 500.
pub fn log_line_count(params: GetLogsParams) -> (res: usize)
    ensures
        res == line_count(params.lines),
{
    let asked: usize = params.lines.unwrap_or(50);
    if asked < 500 {
        asked
    } else {
        500
    }
}

/// The call of `journalctl` for the newest lines.
pub open spec fn journal_view(lines: nat, is_root: bool) -> CommandView {
    let args = seq!["-u"@, "chmlfrp-toolbox-daemon"@, "--no-pager"@, "-n"@, decimal(lines)];
    if is_root {
        CommandView { program: "journalctl"@, args }
    } else {
        CommandView { program: "sudo"@, args: seq!["journalctl"@] + args }
    }
}

/// The call of `journalctl` for the newest lines, through `sudo` where this process is not root.
pub fn journal_command(lines: usize, is_root: bool) -> (res: CommandLine)
    ensures
        res@ == journal_view(lines as nat, is_root),
{
    let mut args: Vec<String> = Vec::new();
    let program = if is_root {
        "journalctl"
    } else {
        args.push("journalctl".to_owned());
        "sudo"
    };
    args.push("-u".to_owned());
    args.push("chmlfrp-toolbox-daemon".to_owned());
    args.push("--no-pager".to_owned());
    args.push("-n".to_owned());
    args.push(decimal_text(lines as u64));
    let res = CommandLine { program: program.to_owned(), args };
    assert(res@.args =~= journal_view(lines as nat, is_root).args);
    res
}

/// The logs as they are answered.
pub open spec fn logs_json(logs: Seq<char>, lines: usize) -> JsonView {
    JsonView::Object(
        seq![
            ("success"@, JsonView::Bool(true)),
            ("logs"@, JsonView::Text(logs)),
            ("lines"@, count_view(lines as u64)),
        ],
    )
}

/// The logs as they are answered.
fn logs_answer(logs: &str, lines: usize) -> (res: Json)
    ensures
        res@ == logs_json(logs@, lines),
{
    let mut members: Vec<JsonMember> = Vec::new();
    members.push(member("success", Json::Bool(true)));
    members.push(member("logs", Json::string(logs)));
    members.push(member("lines", Json::count(lines as u64)));
    let res = Json::object(members);
    assert(member_views(members@) =~= logs_json(logs@, lines)->Object_0);
    res
}

/// What is to be done about a request for logs.
#[derive(Debug)]
pub enum LogsPlan {
    /// This is answered.
    Answer(Json),
    /// This is run, and what it prints is answered.
    Run(CommandLine),
}

/// What is to be done about a request for logs, given what the log files hold: their lines are
/// answered, and where there are none the journal is asked.
pub fn get_logs(params: GetLogsParams, from_files: Option<String>, is_root: bool) -> (res: LogsPlan)
    ensures
        ({
            let lines = line_count(params.lines);
            match from_files {
                Some(text) => res matches LogsPlan::Answer(j) && j@ == logs_json(
                    text@,
                    lines as usize,
                ),
                None => res matches LogsPlan::Run(c) && c@ == journal_view(lines as nat, is_root),
            }
        }),
{
    let lines: usize = log_line_count(params);
    match from_files {
        Some(text) => LogsPlan::Answer(logs_answer(text.as_str(), lines)),
        None => LogsPlan::Run(journal_command(lines, is_root)),
    }
}

/// What the journal printed, as it is answered.
pub fn judge_journal(params: GetLogsParams, printed: Result<String, String>) -> (res: CommandResult)
    ensures
        match printed {
            Ok(text) => res matches Ok(j) && j@ == logs_json(
                text@,
                line_count(params.lines) as usize,
            ),
            Err(m) => res matches Err(e) && e@ == rpc_error(
                "LOG_FETCH_FAILED"@,
                "执行 journalctl 失败: "@ + m@,
            ),
        },
{
    let lines: usize = log_line_count(params);
    match printed {
        Ok(text) => Ok(logs_answer(text.as_str(), lines)),
        Err(m) => Err(
            RpcError::new(
                "LOG_FETCH_FAILED",
                "执行 journalctl 失败: ".to_owned().concat(m.as_str()),
            ),
        ),
    }
}

// ----- what is run and what is told -----

/// The service is controlled by `systemctl`, the journal is read by `journalctl`, both through `sudo`
/// exactly where this process is not root, and what they are told stands behind that without a change.
pub proof fn law_service_is_called_through_sudo_unless_root(
    args: Seq<Seq<char>>,
    lines: nat,
    is_root: bool,
)
    ensures
        ({
            let sudo = if is_root {
                Seq::<Seq<char>>::empty()
            } else {
                seq!["sudo"@]
            };
            let control = systemctl(args, is_root);
            let journal = journal_view(lines, is_root);
            &&& seq![control.program] + control.args == sudo + seq!["systemctl"@] + args
            &&& seq![journal.program] + journal.args == sudo + seq![
                "journalctl"@,
                "-u"@,
                "chmlfrp-toolbox-daemon"@,
                "--no-pager"@,
                "-n"@,
                decimal(lines),
            ]
        }),
{
    let sudo = if is_root {
        Seq::<Seq<char>>::empty()
    } else {
        seq!["sudo"@]
    };
    let control = systemctl(args, is_root);
    let journal = journal_view(lines, is_root);
    assert(seq![control.program] + control.args =~= sudo + seq!["systemctl"@] + args);
    assert(seq![journal.program] + journal.args =~= sudo + seq![
        "journalctl"@,
        "-u"@,
        "chmlfrp-toolbox-daemon"@,
        "--no-pager"@,
        "-n"@,
        decimal(lines),
    ]);
}

/// Every action has a name of its own.
pub proof fn law_action_names_differ(a: ServiceAction, b: ServiceAction)
    requires
        action_name(a) == action_name(b),
    ensures
        a == b,
{
    reveal_strlit("status");
    reveal_strlit("restart");
    reveal_strlit("stop");
    reveal_strlit("start");
    let (x, y) = (action_name(a), action_name(b));
    assert(x.len() == y.len());
    assert("status"@.len() == 6);
    assert("restart"@.len() == 7);
    assert("stop"@.len() == 4);
    assert("start"@.len() == 5);
}

/// An action counts as carried out exactly where its program ran and ended with success. A failure
/// tells what the program printed, or why it did not run.
pub proof fn law_action_succeeds_with_its_program(action: ServiceAction, outcome: OutcomeView)
    ensures
        ({
            let res = control_result(action, outcome);
            &&& res is Ok <==> (outcome matches OutcomeView::Ended { success, stderr } && success)
            &&& res matches Ok(j) ==> j.flag("success"@) == Some(true) && j.text("message"@) is Some
            &&& res matches Err(e) ==> e.code == "SERVICE_CONTROL_FAILED"@
            &&& outcome matches OutcomeView::NotRun(m) ==> (res matches Err(e)
                && crate::text::finishes_with(e.message, m))
            &&& outcome matches OutcomeView::Ended { success, stderr } ==> (!success ==> (
            res matches Err(e) && crate::text::finishes_with(e.message, stderr)))
        }),
{
    super::daemon_config::law_change_is_answered(done_message(action));
    match outcome {
        OutcomeView::NotRun(m) => {
            let t = "执行 systemctl 失败: "@ + m;
            assert(t.subrange(t.len() - m.len(), t.len() as int) =~= m);
        },
        OutcomeView::Ended { success, stderr } => {
            let t = failed_prefix(action) + stderr;
            assert(t.subrange(t.len() - stderr.len(), t.len() as int) =~= stderr);
        },
    }
}

/// The state of the service is answered as it was printed, without the white space around it: whether
/// it runs and whether it is started by itself, each `unknown` where it could not be asked for.
pub proof fn law_state_is_answered(active: Option<Seq<char>>, enabled: Option<Seq<char>>)
    ensures
        ({
            let j = status_json(active, enabled);
            &&& j.flag("success"@) == Some(true)
            &&& j.get("status"@) matches Some(s) && s.text("activeState"@) == Some(
                match active {
                    Some(t) => trimmed(t),
                    None => "unknown"@,
                },
            ) && s.text("enabledState"@) == Some(
                match enabled {
                    Some(t) => trimmed(t),
                    None => "unknown"@,
                },
            )
        }),
{
    reveal_strlit("success");
    reveal_strlit("status");
    reveal_strlit("activeState");
    reveal_strlit("enabledState");
    assert("success"@.len() == 7);
    assert("status"@.len() == 6);
    assert("activeState"@.len() == 11);
    assert("enabledState"@.len() == 12);
    reveal_with_fuel(crate::json::member_from, 5);
}

/// As many lines are shown as are asked for, up to five hundred, and fifty where nothing is said.
pub proof fn law_lines_are_limited(asked: usize)
    ensures
        asked <= 500 ==> line_count(Some(asked)) == asked,
        asked > 500 ==> line_count(Some(asked)) == 500,
        line_count(None) == 50,
{
}

/// The logs are answered with their text and with how many lines were asked for.
pub proof fn law_logs_are_answered(logs: Seq<char>, lines: usize)
    ensures
        logs_json(logs, lines).flag("success"@) == Some(true),
        logs_json(logs, lines).text("logs"@) == Some(logs),
        logs_json(logs, lines).unsigned("lines"@) == Some(lines as u64),
{
    reveal_strlit("success");
    reveal_strlit("logs");
    reveal_strlit("lines");
    assert("success"@.len() == 7);
    assert("logs"@.len() == 4);
    assert("lines"@.len() == 5);
    reveal_with_fuel(crate::json::member_from, 4);
}

} // verus!
