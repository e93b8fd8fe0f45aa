//! The sending side of an end-to-end test: who owns it, and the protocol that it speaks.
use super::frpc_process::{FrpcSettings, FrpcSettingsView};
use super::temp_tunnel::{TempTunnel, TempTunnelView};
use super::{
    CommandContext, CommandResult, RegistryView, RpcError, RpcErrorView, RunRegistry, answer_view,
    is_run_cancelled, rpc_error, run_generation, run_name,
};
use crate::ident::{fresh_uuid, is_uuid_v4};
use crate::json::{Json, JsonMember, JsonView, count_view, id_view, member, member_views};
use crate::text::{
    begins_with, decimal, is_word, lemma_trim_line, lemma_two_words, parse_uint, parsed,
    push_decimal, same_text, split_words, starts_with, trim, trimmed, words,
};
use vstd::prelude::*;
use vstd::string::*;

verus! {

// ----- who owns the resources -----

/// The run that holds the tunnel, the frpc process and the speed server.
#[derive(Debug)]
pub struct ResourceOwner {
    pub account_id: String,
    pub run_id: String,
    pub generation: u64,
    /// The tunnel is up.
    pub ready: bool,
    /// Somebody is taking the resources down.
    pub cleaning: bool,
}

/// Lets one run at a time hold the resources.
#[derive(Debug)]
pub struct ResourceCoordinator {
    pub active: Option<ResourceOwner>,
}

/// The model of [`ResourceOwner`].
pub struct OwnerView {
    pub account: Seq<char>,
    pub run: Seq<char>,
    pub generation: u64,
    pub ready: bool,
    pub cleaning: bool,
}

impl View for ResourceOwner {
    type V = OwnerView;

    open spec fn view(&self) -> OwnerView {
        OwnerView {
            account: self.account_id@,
            run: self.run_id@,
            generation: self.generation,
            ready: self.ready,
            cleaning: self.cleaning,
        }
    }
}

impl View for ResourceCoordinator {
    type V = Option<OwnerView>;

    open spec fn view(&self) -> Option<OwnerView> {
        match self.active {
            Some(owner) => Some(owner@),
            None => None,
        }
    }
}

impl OwnerView {
    /// Whether this is the given run of the given account under the given generation.
    pub open spec fn is(self, account: Seq<char>, run: Seq<char>, generation: u64) -> bool {
        self.account == account && self.run == run && self.generation == generation
    }
}

/// Whether the resources are held by the given run.
pub open spec fn owned_by(
    holder: Option<OwnerView>,
    account: Seq<char>,
    run: Seq<char>,
    generation: u64,
) -> bool {
    holder matches Some(o) && o.is(account, run, generation)
}

/// Whether the given run may start to take the resources down: it holds them, they are up, and
/// nobody is taking them down.
pub open spec fn may_clean(
    holder: Option<OwnerView>,
    account: Seq<char>,
    run: Seq<char>,
    generation: u64,
) -> bool {
    holder matches Some(o) && o.is(account, run, generation) && o.ready && !o.cleaning
}

/// Whether the given run may report that its resources are up.
pub open spec fn may_become_ready(
    holder: Option<OwnerView>,
    account: Seq<char>,
    run: Seq<char>,
    generation: u64,
) -> bool {
    holder matches Some(o) && o.is(account, run, generation) && !o.cleaning
}

/// Whether the given run is taking its resources down.
pub open spec fn is_cleaning(
    holder: Option<OwnerView>,
    account: Seq<char>,
    run: Seq<char>,
    generation: u64,
) -> bool {
    holder matches Some(o) && o.is(account, run, generation) && o.cleaning
}

/// The holder with the cleaning mark set as given.
pub open spec fn with_cleaning(holder: Option<OwnerView>, cleaning: bool) -> Option<OwnerView> {
    match holder {
        Some(o) => Some(OwnerView { cleaning, ..o }),
        None => None,
    }
}

/// The holder with the ready mark set.
pub open spec fn made_ready(holder: Option<OwnerView>) -> Option<OwnerView> {
    match holder {
        Some(o) => Some(OwnerView { ready: true, ..o }),
        None => None,
    }
}

/// The complaint of a claim that is refused, if it is.
pub open spec fn claim_refusal(holder: Option<OwnerView>, run: Seq<char>) -> Option<Seq<char>> {
    if run.len() == 0 {
        Some("runId 不能为空"@)
    } else if holder is Some {
        Some("已有其他全链路测速正在占用发送端资源"@)
    } else {
        None
    }
}

/// A run that has just got hold of the resources.
pub open spec fn new_owner(account: Seq<char>, run: Seq<char>, generation: u64) -> OwnerView {
    OwnerView { account, run, generation, ready: false, cleaning: false }
}

impl ResourceCoordinator {
    /// Nobody holds the resources.
    pub fn new() -> (res: ResourceCoordinator)
        ensures
            res@ is None,
    {
        ResourceCoordinator { active: None }
    }

    /// Gives the free resources to a run with a name, and registers the run.
    pub fn claim(&mut self, registry: &mut RunRegistry, account_id: &str, run_id: &str) -> (res:
        Result<u64, String>)
        requires
            old(registry)@.wf(),
        ensures
            final(registry)@.wf(),
            match res {
                Ok(generation) => {
                    &&& claim_refusal(old(self)@, run_id@) is None
                    &&& final(self)@ == Some(new_owner(account_id@, run_id@, generation))
                    &&& final(registry)@ == old(registry)@.with_run(run_name(account_id@, run_id@))
                    &&& final(registry)@.holds(run_name(account_id@, run_id@), generation)
                },
                Err(e) => {
                    &&& claim_refusal(old(self)@, run_id@) == Some(e@)
                    &&& final(self)@ == old(self)@
                    &&& final(registry)@ == old(registry)@
                },
            },
    {
        if run_id.is_empty() {
            return Err("runId 不能为空".to_owned());
        }
        if self.active.is_some() {
            return Err("已有其他全链路测速正在占用发送端资源".to_owned());
        }
        let generation: u64 = run_generation(registry, account_id, run_id);
        self.active = Some(
            ResourceOwner {
                account_id: account_id.to_owned(),
                run_id: run_id.to_owned(),
                generation,
                ready: false,
                cleaning: false,
            },
        );
        Ok(generation)
    }

    /// Whether the resources are held by the given run.
    pub fn is_owner(&self, account_id: &str, run_id: &str, generation: u64) -> (res: bool)
        ensures
            res == owned_by(self@, account_id@, run_id@, generation),
    {
        match &self.active {
            Some(owner) => same_text(owner.account_id.as_str(), account_id) && same_text(
                owner.run_id.as_str(),
                run_id,
            ) && owner.generation == generation,
            None => false,
        }
    }

    /// Marks the resources as being taken down by the given run, where it may do that.
    pub fn begin_cleanup(&mut self, account_id: &str, run_id: &str, generation: u64) -> (res: bool)
        ensures
            res == may_clean(old(self)@, account_id@, run_id@, generation),
            final(self)@ == if res {
                with_cleaning(old(self)@, true)
            } else {
                old(self)@
            },
    {
        if !self.is_owner(account_id, run_id, generation) {
            return false;
        }
        match &mut self.active {
            Some(owner) => {
                if !owner.ready || owner.cleaning {
                    return false;
                }
                owner.cleaning = true;
                true
            },
            None => false,
        }
    }

    /// Marks the resources of the given run as up, unless they are being taken down.
    pub fn mark_ready(&mut self, account_id: &str, run_id: &str, generation: u64) -> (res: bool)
        ensures
            res == may_become_ready(old(self)@, account_id@, run_id@, generation),
            final(self)@ == if res {
                made_ready(old(self)@)
            } else {
                old(self)@
            },
    {
        if !self.is_owner(account_id, run_id, generation) {
            return false;
        }
        match &mut self.active {
            Some(owner) => {
                if owner.cleaning {
                    return false;
                }
                owner.ready = true;
                true
            },
            None => false,
        }
    }

    /// Takes back that the given run is taking its resources down.
    pub fn abort_cleanup(&mut self, account_id: &str, run_id: &str, generation: u64) -> (res: bool)
        ensures
            res == is_cleaning(old(self)@, account_id@, run_id@, generation),
            final(self)@ == if res {
                with_cleaning(old(self)@, false)
            } else {
                old(self)@
            },
    {
        if !self.is_owner(account_id, run_id, generation) {
            return false;
        }
        match &mut self.active {
            Some(owner) => {
                if !owner.cleaning {
                    return false;
                }
                owner.cleaning = false;
                true
            },
            None => false,
        }
    }

    /// Frees the resources that the given run holds.
    pub fn finish_cleanup(&mut self, account_id: &str, run_id: &str, generation: u64) -> (res: bool)
        ensures
            res == owned_by(old(self)@, account_id@, run_id@, generation),
            final(self)@ == if res {
                None
            } else {
                old(self)@
            },
    {
        if !self.is_owner(account_id, run_id, generation) {
            return false;
        }
        self.active = None;
        true
    }

    /// The generation under which the given run holds the resources.
    pub fn active_generation(&self, account_id: &str, run_id: &str) -> (res: Option<u64>)
        ensures
            res == match self@ {
                Some(o) if o.account == account_id@ && o.run == run_id@ => Some(o.generation),
                _ => None,
            },
    {
        match &self.active {
            Some(owner) => {
                if same_text(owner.account_id.as_str(), account_id) && same_text(
                    owner.run_id.as_str(),
                    run_id,
                ) {
                    Some(owner.generation)
                } else {
                    None
                }
            },
            None => None,
        }
    }
}

impl Default for ResourceCoordinator {
    fn default() -> (res: ResourceCoordinator)
        ensures
            res@ is None,
    {
        ResourceCoordinator::new()
    }
}

/// Gives the free resources to a run with a name, and registers the run.
pub fn claim_run(
    coordinator: &mut ResourceCoordinator,
    registry: &mut RunRegistry,
    account_id: &str,
    run_id: &str,
) -> (res: Result<u64, String>)
    requires
        old(registry)@.wf(),
    ensures
        final(registry)@.wf(),
        match res {
            Ok(generation) => {
                &&& claim_refusal(old(coordinator)@, run_id@) is None
                &&& final(coordinator)@ == Some(new_owner(account_id@, run_id@, generation))
                &&& final(registry)@ == old(registry)@.with_run(run_name(account_id@, run_id@))
                &&& final(registry)@.holds(run_name(account_id@, run_id@), generation)
            },
            Err(e) => {
                &&& claim_refusal(old(coordinator)@, run_id@) == Some(e@)
                &&& final(coordinator)@ == old(coordinator)@
                &&& final(registry)@ == old(registry)@
            },
        },
{
    coordinator.claim(registry, account_id, run_id)
}

/// The holder once the given run has ended: nobody, where the run was the holder.
pub open spec fn released(
    holder: Option<OwnerView>,
    account: Seq<char>,
    run: Seq<char>,
    generation: u64,
) -> Option<OwnerView> {
    if owned_by(holder, account, run, generation) {
        None
    } else {
        holder
    }
}

/// Ends the given run: frees the resources where it holds them, and forgets it where it is still
/// registered under `generation`.
pub fn complete_run(
    coordinator: &mut ResourceCoordinator,
    registry: &mut RunRegistry,
    account_id: &str,
    run_id: &str,
    generation: u64,
)
    requires
        old(registry)@.wf(),
    ensures
        final(coordinator)@ == released(old(coordinator)@, account_id@, run_id@, generation),
        final(registry)@ == old(registry)@.finished(run_name(account_id@, run_id@), generation),
        final(registry)@.wf(),
{
    if coordinator.begin_cleanup(account_id, run_id, generation) || coordinator.is_owner(
        account_id,
        run_id,
        generation,
    ) {
        coordinator.finish_cleanup(account_id, run_id, generation);
    }
    super::finish_run(registry, account_id, run_id, generation);
}

/// Taking the resources down is for their holder alone, once at a time, and not before they are
/// up. A failed attempt can be repeated.
pub proof fn law_cleanup_has_one_owner(
    holder: Option<OwnerView>,
    account: Seq<char>,
    run: Seq<char>,
    generation: u64,
)
    ensures
        may_clean(holder, account, run, generation) ==> owned_by(holder, account, run, generation),
        forall|a: Seq<char>, r: Seq<char>, g: u64|
            may_clean(holder, account, run, generation) && #[trigger] may_clean(holder, a, r, g)
                ==> a == account && r == run && g == generation,
        forall|a: Seq<char>, r: Seq<char>, g: u64|
            !#[trigger] may_clean(with_cleaning(holder, true), a, r, g),
        may_clean(holder, account, run, generation) ==> is_cleaning(
            with_cleaning(holder, true),
            account,
            run,
            generation,
        ),
        may_clean(holder, account, run, generation) ==> with_cleaning(
            with_cleaning(holder, true),
            false,
        ) == holder,
        !may_clean(Some(new_owner(account, run, generation)), account, run, generation),
        may_clean(
            made_ready(Some(new_owner(account, run, generation))),
            account,
            run,
            generation,
        ),
{
}

/// A run that is not the holder changes nothing when it ends late, and the holder keeps the
/// resources until it ends itself. While there is a holder no other run gets the resources.
pub proof fn law_late_end_releases_nothing(
    holder: Option<OwnerView>,
    account: Seq<char>,
    run: Seq<char>,
    generation: u64,
    late_run: Seq<char>,
    late_generation: u64,
)
    requires
        owned_by(holder, account, run, generation),
        late_run != run || late_generation != generation,
    ensures
        released(holder, account, late_run, late_generation) == holder,
        owned_by(
            released(holder, account, late_run, late_generation),
            account,
            run,
            generation,
        ),
        released(holder, account, run, generation) is None,
        claim_refusal(holder, late_run) is Some,
        late_run.len() > 0 ==> claim_refusal(
            released(holder, account, run, generation),
            late_run,
        ) is None,
{
}

// ----- the protocol of the speed server -----

/// How many bytes the speed server hands to the connection at a time.
pub const TEST_DATA_SIZE: usize = 1_048_576;

/// The shortest test, in milliseconds.
pub const MIN_TEST_MS: u64 = 5_000;

/// The longest test, in milliseconds.
pub const MAX_TEST_MS: u64 = 120_000;

/// The length of the test that a line asks for, in milliseconds.
pub open spec fn speed_request(line: Seq<char>) -> Result<nat, Seq<char>> {
    let w = words(line);
    if w.len() == 2 && w[0] == "SPEEDTEST_TIME"@ {
        match parsed(w[1], u64::MAX as nat) {
            Some(ms) => if MIN_TEST_MS <= ms <= MAX_TEST_MS {
                Ok(ms)
            } else {
                Err("测速时长必须在 5000 到 120000 毫秒之间"@)
            },
            None => Err("无效的测速时长"@),
        }
    } else {
        Err("不支持的测速命令"@)
    }
}

/// The length of the test that a line asks for, in milliseconds: a test takes from 5 to 120
/// seconds.
pub fn parse_speed_request(request: &str) -> (res: Result<u64, String>)
    ensures
        match res {
            Ok(ms) => speed_request(request@) == Ok::<nat, Seq<char>>(ms as nat),
            Err(e) => speed_request(request@) == Err::<nat, Seq<char>>(e@),
        },
{
    let parts = split_words(request);
    assert(parts@.len() == words(request@).len());
    if parts.len() == 2 {
        assert(parts@[0]@ == words(request@)[0]);
        assert(parts@[1]@ == words(request@)[1]);
        if same_text(parts[0].as_str(), "SPEEDTEST_TIME") {
            return match parse_uint(parts[1].as_str(), u64::MAX) {
                Some(ms) => {
                    if ms < MIN_TEST_MS || ms > MAX_TEST_MS {
                        Err("测速时长必须在 5000 到 120000 毫秒之间".to_owned())
                    } else {
                        Ok(ms)
                    }
                },
                None => Err("无效的测速时长".to_owned()),
            };
        }
    }
    Err("不支持的测速命令".to_owned())
}

/// What the speed server does about a line.
#[derive(Debug)]
pub enum LineAction {
    /// It sends this line back and reads on.
    Reply(String),
    /// It sends data for so many milliseconds and closes the connection.
    Send(u64),
    /// It closes the connection, for this reason.
    Refuse(String),
    /// It reads on.
    Ignore,
}

/// The model of [`LineAction`].
pub enum LineActionView {
    Reply(Seq<char>),
    Send(nat),
    Refuse(Seq<char>),
    Ignore,
}

impl View for LineAction {
    type V = LineActionView;

    open spec fn view(&self) -> LineActionView {
        match self {
            LineAction::Reply(s) => LineActionView::Reply(s@),
            LineAction::Send(ms) => LineActionView::Send(*ms as nat),
            LineAction::Refuse(e) => LineActionView::Refuse(e@),
            LineAction::Ignore => LineActionView::Ignore,
        }
    }
}

/// What is due on a line: a probe is answered with its sequence, a test runs for its time, and
/// every other line is passed over.
pub open spec fn line_action(line: Seq<char>) -> LineActionView {
    if begins_with(line, "PING "@) {
        let w = words(line);
        LineActionView::Reply(
            "PONG "@ + (if w.len() > 1 {
                w[1]
            } else {
                "0"@
            }) + "\n"@,
        )
    } else if begins_with(line, "SPEEDTEST_TIME "@) {
        match speed_request(line) {
            Ok(ms) => LineActionView::Send(ms),
            Err(e) => LineActionView::Refuse(e),
        }
    } else {
        LineActionView::Ignore
    }
}

/// What the speed server does about a line that came in.
pub fn serve_line(line: &str) -> (res: LineAction)
    ensures
        res@ == line_action(line@),
{
    if starts_with(line, "PING ") {
        let parts = split_words(line);
        assert(parts@.len() == words(line@).len());
        let reply = "PONG ".to_owned();
        if parts.len() > 1 {
            assert(parts@[1]@ == words(line@)[1]);
            LineAction::Reply(reply.concat(parts[1].as_str()).concat("\n"))
        } else {
            LineAction::Reply(reply.concat("0").concat("\n"))
        }
    } else if starts_with(line, "SPEEDTEST_TIME ") {
        match parse_speed_request(line) {
            Ok(ms) => LineAction::Send(ms),
            Err(e) => LineAction::Refuse(e),
        }
    } else {
        LineAction::Ignore
    }
}

/// What became of handing data to a connection.
#[derive(Clone, Copy, Debug, PartialEq, Eq, Structural)]
pub enum WriteOutcome {
    /// So many bytes went out.
    Wrote(usize),
    /// Nothing could go out yet.
    NotYet,
    /// The connection is broken.
    Failed,
}

/// Whether a test goes on sending: its time is not over, the server runs, and the connection
/// took data or was merely busy.
pub fn keeps_sending(outcome: WriteOutcome, elapsed_ms: u64, duration_ms: u64, running: bool) -> (res:
    bool)
    ensures
        res == (elapsed_ms < duration_ms && running && outcome != WriteOutcome::Failed && outcome
            != WriteOutcome::Wrote(0)),
{
    let alive = match outcome {
        WriteOutcome::Wrote(n) => n > 0,
        WriteOutcome::NotYet => true,
        WriteOutcome::Failed => false,
    };
    elapsed_ms < duration_ms && running && alive
}

/// Whether the speed server runs, and on which port. A server that does not run has port 0.
#[derive(Clone, Copy, Debug, PartialEq, Eq, Structural)]
pub struct SpeedServer {
    pub running: bool,
    pub port: u16,
}

impl SpeedServer {
    /// A server that does not run has no port.
    pub open spec fn wf(self) -> bool {
        !self.running ==> self.port == 0
    }

    /// A server that does not run.
    pub fn new() -> (res: SpeedServer)
        ensures
            res == (SpeedServer { running: false, port: 0 }),
            res.wf(),
    {
        SpeedServer { running: false, port: 0 }
    }

    /// The port of the server that runs already. There is never a second one.
    pub fn running_port(&self) -> (res: Option<u16>)
        ensures
            res == if self.running {
                Some(self.port)
            } else {
                None
            },
    {
        if self.running {
            Some(self.port)
        } else {
            None
        }
    }

    /// The server listens on `port` from now on.
    pub fn start(&mut self, port: u16)
        ensures
            *final(self) == (SpeedServer { running: true, port }),
            final(self).wf(),
    {
        self.port = port;
        self.running = true;
    }

    /// The server stops.
    pub fn stop(&mut self)
        ensures
            *final(self) == (SpeedServer { running: false, port: 0 }),
            final(self).wf(),
    {
        self.running = false;
        self.port = 0;
    }
}

impl Default for SpeedServer {
    fn default() -> (res: SpeedServer)
        ensures
            res == (SpeedServer { running: false, port: 0 }),
            res.wf(),
    {
        SpeedServer::new()
    }
}

/// Whether a line answers the probe with the given sequence.
pub open spec fn answers_probe(response: Seq<char>, sequence: Seq<char>) -> bool {
    trimmed(response) == "PONG "@ + sequence
}

/// Whether a line answers the probe with the given sequence.
pub fn validate_probe_response(response: &str, sequence: &str) -> (res: bool)
    ensures
        res == answers_probe(response@, sequence@),
{
    let line = trim(response);
    let expected = "PONG ".to_owned().concat(sequence);
    same_text(line.as_str(), expected.as_str())
}

/// The line that probes a tunnel.
pub fn probe_line(sequence: &str) -> (res: String)
    ensures
        res@ == "PING "@ + sequence@ + "\n"@,
{
    "PING ".to_owned().concat(sequence).concat("\n")
}

/// A sequence for a probe: `ready-` and a random UUID.
pub fn probe_sequence() -> (res: String)
    ensures
        exists|id: Seq<char>| #[trigger] is_uuid_v4(id) && res@ == "ready-"@ + id,
{
    let id = fresh_uuid();
    "ready-".to_owned().concat(id.as_str())
}

/// What came back on a probe: how many bytes were read into which line, or an error.
#[derive(Debug)]
pub enum ProbeRead {
    /// A line, which is empty where the connection was closed.
    Line(String),
    /// No line came in time.
    TimedOut,
    /// Reading failed.
    Failed(String),
}

/// Whether the tunnel is up: only the answer to this very probe says so.
pub fn probe_verdict(read: ProbeRead, sequence: &str) -> (res: Result<bool, String>)
    ensures
        match read {
            ProbeRead::Line(line) => res == Ok::<bool, String>(
                line@.len() > 0 && answers_probe(line@, sequence@),
            ),
            ProbeRead::TimedOut => res == Ok::<bool, String>(false),
            ProbeRead::Failed(e) => res matches Err(m) && m@ == "读取隧道探测失败: "@ + e@,
        },
{
    match read {
        ProbeRead::Line(line) => {
            if line.as_str().is_empty() {
                Ok(false)
            } else {
                Ok(validate_probe_response(line.as_str(), sequence))
            }
        },
        ProbeRead::TimedOut => Ok(false),
        ProbeRead::Failed(e) => Err("读取隧道探测失败: ".to_owned().concat(e.as_str())),
    }
}

/// The server's answer to a probe is accepted by the side that sent the probe, and by no side that
/// sent another one.
pub proof fn law_probe_round_trip(sequence: Seq<char>, other: Seq<char>)
    requires
        is_word(sequence),
    ensures
        line_action("PING "@ + sequence + "\n"@) == LineActionView::Reply("PONG "@ + sequence + "\n"@),
        answers_probe("PONG "@ + sequence + "\n"@, sequence),
        answers_probe("PONG "@ + sequence + "\n"@, other) ==> other == sequence,
{
    reveal_strlit("PING ");
    reveal_strlit("PONG ");
    reveal_strlit("\n");
    let line = "PING "@ + sequence + "\n"@;
    let ping = seq!['P', 'I', 'N', 'G'];
    assert(line =~= ping.push(' ') + sequence.push('\n'));
    lemma_two_words(ping, sequence);
    assert(line.subrange(0, 5) =~= "PING "@);
    let pong = "PONG "@ + sequence;
    assert("PONG "@ + sequence + "\n"@ =~= pong.push('\n'));
    lemma_trim_line(pong);
    if answers_probe("PONG "@ + sequence + "\n"@, other) {
        assert(other =~= ("PONG "@ + other).skip(5));
        assert(sequence =~= pong.skip(5));
    }
}

// ----- what a test holds -----

/// What there is one of for all tests: the right to run one, the tunnel that is remembered, and the
/// speed server.
#[derive(Debug)]
pub struct Resources {
    pub coordinator: ResourceCoordinator,
    /// The tunnel that is deleted when the test is taken down.
    pub tunnel_id: Option<i64>,
    pub server: SpeedServer,
}

/// The model of [`Resources`].
pub struct ResourcesView {
    pub holder: Option<OwnerView>,
    pub tunnel_id: Option<i64>,
    pub server: SpeedServer,
}

impl View for Resources {
    type V = ResourcesView;

    open spec fn view(&self) -> ResourcesView {
        ResourcesView {
            holder: self.coordinator@,
            tunnel_id: self.tunnel_id,
            server: self.server,
        }
    }
}

impl ResourcesView {
    /// The same with another holder.
    pub open spec fn held_by(self, holder: Option<OwnerView>) -> ResourcesView {
        ResourcesView { holder, ..self }
    }
}

impl Resources {
    /// Nobody runs a test, no tunnel is remembered, and the server does not run.
    pub fn new() -> (res: Resources)
        ensures
            res@ == (ResourcesView {
                holder: None,
                tunnel_id: None,
                server: SpeedServer { running: false, port: 0 },
            }),
    {
        Resources {
            coordinator: ResourceCoordinator::new(),
            tunnel_id: None,
            server: SpeedServer::new(),
        }
    }
}

impl Default for Resources {
    fn default() -> (res: Resources)
        ensures
            res@ == (ResourcesView {
                holder: None,
                tunnel_id: None,
                server: SpeedServer { running: false, port: 0 },
            }),
    {
        Resources::new()
    }
}

// ----- setting a test up -----

/// How long a tunnel may take to come up, in milliseconds.
pub const TUNNEL_READY_TIMEOUT_MS: u64 = 30_000;

/// The version of the protocol of the speed server.
pub const PROTOCOL_VERSION: u64 = 2;

/// What a test is set up with.
#[derive(Debug)]
pub struct E2eSetupParams {
    /// The name of the node.
    pub node_name: String,
    /// The name of the run.
    pub run_id: String,
}

/// What a set-up test answers.
#[derive(Debug)]
pub struct E2eSetupResult {
    pub success: bool,
    pub node_ip: String,
    pub remote_port: u16,
    pub tunnel_id: i64,
    pub error: Option<String>,
    pub protocol_version: u8,
}

/// How far a set-up has come.
#[derive(Clone, Copy, Debug, PartialEq, Eq, Structural)]
pub enum SetupStage {
    /// The token of the user is being fetched.
    UserToken,
    /// The frpc program is being prepared.
    Frpc,
    /// The speed server is being started.
    Server,
    /// The tunnel is being created.
    Tunnel,
    /// The frpc process is being started.
    Start,
    /// The frpc process is being looked at.
    Check,
    /// The tunnel is being probed.
    Probe,
    /// The tunnel is up.
    Ready,
    /// The set-up has failed.
    Over,
}

/// A set-up under way, with what it holds.
#[derive(Debug)]
pub struct Setup {
    pub account_id: String,
    pub run_id: String,
    pub node_name: String,
    pub generation: u64,
    pub user_token: String,
    pub frpc_path: String,
    pub local_port: u16,
    pub server_up: bool,
    pub tunnel: Option<TempTunnel>,
    pub frpc_up: bool,
    pub stage: SetupStage,
}

/// The model of [`Setup`].
pub struct SetupView {
    pub account: Seq<char>,
    pub run: Seq<char>,
    pub node_name: Seq<char>,
    pub generation: u64,
    pub user_token: Seq<char>,
    pub frpc_path: Seq<char>,
    pub local_port: u16,
    pub server_up: bool,
    pub tunnel: Option<TempTunnelView>,
    pub frpc_up: bool,
    pub stage: SetupStage,
}

impl View for Setup {
    type V = SetupView;

    open spec fn view(&self) -> SetupView {
        SetupView {
            account: self.account_id@,
            run: self.run_id@,
            node_name: self.node_name@,
            generation: self.generation,
            user_token: self.user_token@,
            frpc_path: self.frpc_path@,
            local_port: self.local_port,
            server_up: self.server_up,
            tunnel: match self.tunnel {
                Some(t) => Some(t@),
                None => None,
            },
            frpc_up: self.frpc_up,
            stage: self.stage,
        }
    }
}

/// What happened last.
#[derive(Debug)]
pub enum SetupEvent {
    /// The token of the user came, or it did not for this reason.
    UserToken(Result<String, String>),
    /// The frpc program is at this path, or there is none for this reason.
    Frpc(Result<String, String>),
    /// The speed server listens on this port, or it does not for this reason.
    Server(Result<u16, String>),
    /// The tunnel is there, or it is not for this reason.
    Tunnel(Result<TempTunnel, String>),
    /// The frpc process runs, or it does not for this reason.
    Started(Result<(), String>),
    /// The frpc process runs on, or it has ended for this reason.
    Checked(Option<String>),
    /// The tunnel answered a probe or not, so many milliseconds after the process was started.
    Probed(bool, u64),
}

/// The model of [`SetupEvent`].
pub enum SetupEventView {
    UserToken(Result<Seq<char>, Seq<char>>),
    Frpc(Result<Seq<char>, Seq<char>>),
    Server(Result<u16, Seq<char>>),
    Tunnel(Result<TempTunnelView, Seq<char>>),
    Started(Result<(), Seq<char>>),
    Checked(Option<Seq<char>>),
    Probed(bool, u64),
}

impl View for SetupEvent {
    type V = SetupEventView;

    open spec fn view(&self) -> SetupEventView {
        match self {
            SetupEvent::UserToken(Ok(s)) => SetupEventView::UserToken(Ok(s@)),
            SetupEvent::UserToken(Err(e)) => SetupEventView::UserToken(Err(e@)),
            SetupEvent::Frpc(Ok(s)) => SetupEventView::Frpc(Ok(s@)),
            SetupEvent::Frpc(Err(e)) => SetupEventView::Frpc(Err(e@)),
            SetupEvent::Server(Ok(p)) => SetupEventView::Server(Ok(*p)),
            SetupEvent::Server(Err(e)) => SetupEventView::Server(Err(e@)),
            SetupEvent::Tunnel(Ok(t)) => SetupEventView::Tunnel(Ok(t@)),
            SetupEvent::Tunnel(Err(e)) => SetupEventView::Tunnel(Err(e@)),
            SetupEvent::Started(Ok(u)) => SetupEventView::Started(Ok(*u)),
            SetupEvent::Started(Err(e)) => SetupEventView::Started(Err(e@)),
            SetupEvent::Checked(Some(e)) => SetupEventView::Checked(Some(e@)),
            SetupEvent::Checked(None) => SetupEventView::Checked(None),
            SetupEvent::Probed(up, ms) => SetupEventView::Probed(*up, *ms),
        }
    }
}

/// What is to be done next.
#[derive(Debug)]
pub enum SetupAction {
    /// Fetch the token of the user.
    FetchUserToken,
    /// Prepare the frpc program.
    PrepareFrpc,
    /// Start the speed server.
    StartServer,
    /// Create a tunnel from the node of this name to this local port.
    CreateTunnel(String, u16),
    /// Start the frpc program at this path with these settings.
    StartFrpc(String, FrpcSettings),
    /// Look at the frpc process.
    CheckFrpc,
    /// Send a probe through the tunnel at this address.
    Probe(String),
    /// Wait a moment and look at the frpc process again.
    Wait,
    /// Take down what is named here, end the run, and answer with the error.
    Undo { stop_frpc: bool, delete_tunnel: Option<i64>, stop_server: bool, error: RpcError },
    /// Answer that the tunnel is up.
    Answer(Json),
}

/// The model of [`SetupAction`].
pub enum SetupActionView {
    FetchUserToken,
    PrepareFrpc,
    StartServer,
    CreateTunnel(Seq<char>, u16),
    StartFrpc(Seq<char>, FrpcSettingsView),
    CheckFrpc,
    Probe(Seq<char>),
    Wait,
    Undo { stop_frpc: bool, delete_tunnel: Option<i64>, stop_server: bool, error: RpcErrorView },
    Answer(JsonView),
}

impl View for SetupAction {
    type V = SetupActionView;

    open spec fn view(&self) -> SetupActionView {
        match self {
            SetupAction::FetchUserToken => SetupActionView::FetchUserToken,
            SetupAction::PrepareFrpc => SetupActionView::PrepareFrpc,
            SetupAction::StartServer => SetupActionView::StartServer,
            SetupAction::CreateTunnel(node, port) => SetupActionView::CreateTunnel(node@, *port),
            SetupAction::StartFrpc(path, s) => SetupActionView::StartFrpc(path@, s@),
            SetupAction::CheckFrpc => SetupActionView::CheckFrpc,
            SetupAction::Probe(a) => SetupActionView::Probe(a@),
            SetupAction::Wait => SetupActionView::Wait,
            SetupAction::Undo { stop_frpc, delete_tunnel, stop_server, error } => {
                SetupActionView::Undo {
                    stop_frpc: *stop_frpc,
                    delete_tunnel: *delete_tunnel,
                    stop_server: *stop_server,
                    error: error@,
                }
            },
            SetupAction::Answer(j) => SetupActionView::Answer(j@),
        }
    }
}

/// The address of a port of a host.
pub open spec fn host_port(host: Seq<char>, port: u16) -> Seq<char> {
    host + ":"@ + decimal(port as nat)
}

/// The address of a port of a host.
pub fn address(host: &str, port: u16) -> (res: String)
    ensures
        res@ == host_port(host@, port),
{
    let mut out = host.to_owned().concat(":");
    push_decimal(&mut out, port as u64);
    out
}

/// What is answered once the tunnel is up.
pub open spec fn setup_answer(tunnel: TempTunnelView) -> JsonView {
    JsonView::Object(
        seq![
            ("success"@, JsonView::Bool(true)),
            ("nodeIp"@, JsonView::Text(tunnel.node_ip)),
            ("remotePort"@, count_view(tunnel.remote_port as u64)),
            ("tunnelId"@, id_view(tunnel.tunnel_id)),
            ("error"@, JsonView::Null),
            ("protocolVersion"@, count_view(PROTOCOL_VERSION)),
        ],
    )
}

/// The model of the result of a set-up as JSON.
pub open spec fn result_view(r: E2eSetupResult) -> JsonView {
    JsonView::Object(
        seq![
            ("success"@, JsonView::Bool(r.success)),
            ("nodeIp"@, JsonView::Text(r.node_ip@)),
            ("remotePort"@, count_view(r.remote_port as u64)),
            ("tunnelId"@, id_view(r.tunnel_id)),
            (
                "error"@,
                match r.error {
                    Some(e) => JsonView::Text(e@),
                    None => JsonView::Null,
                },
            ),
            ("protocolVersion"@, count_view(r.protocol_version as u64)),
        ],
    )
}

impl E2eSetupResult {
    /// The result as JSON.
    pub fn to_json(&self) -> (res: Json)
        ensures
            res@ == result_view(*self),
    {
        let error = match &self.error {
            Some(e) => Json::string(e.as_str()),
            None => Json::Null,
        };
        let mut members: Vec<JsonMember> = Vec::new();
        members.push(member("success", Json::Bool(self.success)));
        members.push(member("nodeIp", Json::string(self.node_ip.as_str())));
        members.push(member("remotePort", Json::count(self.remote_port as u64)));
        members.push(member("tunnelId", Json::id(self.tunnel_id)));
        members.push(member("error", error));
        members.push(member("protocolVersion", Json::count(self.protocol_version as u64)));
        let res = Json::object(members);
        assert(member_views(members@) =~= result_view(*self)->Object_0);
        res
    }
}

impl SetupView {
    /// What is held goes with how far the set-up has come.
    pub open spec fn wf(self) -> bool {
        match self.stage {
            SetupStage::UserToken | SetupStage::Frpc | SetupStage::Server => !self.server_up
                && self.tunnel is None && !self.frpc_up,
            SetupStage::Tunnel => self.server_up && self.tunnel is None && !self.frpc_up,
            SetupStage::Start => self.server_up && self.tunnel is Some && !self.frpc_up,
            SetupStage::Check | SetupStage::Probe | SetupStage::Ready => self.server_up
                && self.tunnel is Some && self.frpc_up,
            SetupStage::Over => true,
        }
    }

    /// Whether this is what the set-up waits for.
    pub open spec fn expects(self, event: SetupEventView) -> bool {
        match event {
            SetupEventView::UserToken(_) => self.stage == SetupStage::UserToken,
            SetupEventView::Frpc(_) => self.stage == SetupStage::Frpc,
            SetupEventView::Server(_) => self.stage == SetupStage::Server,
            SetupEventView::Tunnel(_) => self.stage == SetupStage::Tunnel,
            SetupEventView::Started(_) => self.stage == SetupStage::Start,
            SetupEventView::Checked(_) => self.stage == SetupStage::Check,
            SetupEventView::Probed(_, _) => self.stage == SetupStage::Probe,
        }
    }

    /// The set-up at another stage.
    pub open spec fn at(self, stage: SetupStage) -> SetupView {
        SetupView { stage, ..self }
    }

    /// Everything that is held has to be taken down, and the error is answered.
    pub open spec fn undo(self, code: Seq<char>, message: Seq<char>) -> SetupActionView {
        SetupActionView::Undo {
            stop_frpc: self.frpc_up,
            delete_tunnel: match self.tunnel {
                Some(t) => Some(t.tunnel_id),
                None => None,
            },
            stop_server: self.server_up,
            error: rpc_error(code, message),
        }
    }

    /// The set-up fails with an error.
    pub open spec fn fail(self, code: Seq<char>, message: Seq<char>) -> (SetupView, SetupActionView) {
        (self.at(SetupStage::Over), self.undo(code, message))
    }

    /// The settings of the frpc process.
    pub open spec fn settings(self, tunnel: TempTunnelView) -> FrpcSettingsView {
        FrpcSettingsView {
            node_ip: tunnel.node_ip,
            server_port: tunnel.server_port,
            user_token: self.user_token,
            node_token: tunnel.node_token,
            local_port: self.local_port,
            remote_port: tunnel.remote_port,
            tunnel_name: tunnel.tunnel_name,
        }
    }

    /// What an event leads to, given whether the run was asked to stop and whether its resources
    /// may be marked as up.
    pub open spec fn stepped(self, event: SetupEventView, cancelled: bool, may_be_ready: bool) -> (
        SetupView,
        SetupActionView,
    ) {
        match event {
            SetupEventView::UserToken(Ok(user_token)) => (
                SetupView { user_token, stage: SetupStage::Frpc, ..self },
                SetupActionView::PrepareFrpc,
            ),
            SetupEventView::UserToken(Err(e)) => self.fail("FRPC_AUTH_FAILED"@, e),
            SetupEventView::Frpc(Ok(frpc_path)) => (
                SetupView { frpc_path, stage: SetupStage::Server, ..self },
                SetupActionView::StartServer,
            ),
            SetupEventView::Frpc(Err(e)) => self.fail("FRPC_PREPARE_FAILED"@, e),
            SetupEventView::Server(Ok(local_port)) => (
                SetupView { local_port, server_up: true, stage: SetupStage::Tunnel, ..self },
                SetupActionView::CreateTunnel(self.node_name, local_port),
            ),
            SetupEventView::Server(Err(e)) => self.fail("EXEC_FAILED"@, e),
            SetupEventView::Tunnel(Ok(t)) => {
                let with_tunnel = SetupView { tunnel: Some(t), ..self };
                if cancelled {
                    with_tunnel.fail("CANCELLED"@, "测速已强制停止"@)
                } else {
                    (
                        with_tunnel.at(SetupStage::Start),
                        SetupActionView::StartFrpc(self.frpc_path, self.settings(t)),
                    )
                }
            },
            SetupEventView::Tunnel(Err(e)) => self.fail("EXEC_FAILED"@, e),
            SetupEventView::Started(Ok(_)) => (
                SetupView { frpc_up: true, stage: SetupStage::Check, ..self },
                SetupActionView::CheckFrpc,
            ),
            SetupEventView::Started(Err(e)) => self.fail("EXEC_FAILED"@, e),
            SetupEventView::Checked(exit) => if cancelled {
                self.fail("CANCELLED"@, "测速已强制停止"@)
            } else {
                match exit {
                    Some(e) => self.fail("FRPC_START_FAILED"@, e),
                    None => (
                        self.at(SetupStage::Probe),
                        SetupActionView::Probe(
                            host_port(self.tunnel->0.node_ip, self.tunnel->0.remote_port),
                        ),
                    ),
                }
            },
            SetupEventView::Probed(up, elapsed_ms) => if up && elapsed_ms <= TUNNEL_READY_TIMEOUT_MS {
                if may_be_ready {
                    (
                        self.at(SetupStage::Ready),
                        SetupActionView::Answer(setup_answer(self.tunnel->0)),
                    )
                } else {
                    self.fail("CANCELLED"@, "测速资源已进入清理流程"@)
                }
            } else if elapsed_ms >= TUNNEL_READY_TIMEOUT_MS {
                self.fail(
                    "TUNNEL_READY_TIMEOUT"@,
                    "隧道在 30 秒内未就绪: "@ + host_port(
                        self.tunnel->0.node_ip,
                        self.tunnel->0.remote_port,
                    ),
                )
            } else {
                (self.at(SetupStage::Check), SetupActionView::Wait)
            },
        }
    }
}

/// A set-up that has just claimed the resources.
pub open spec fn new_setup(
    account: Seq<char>,
    run: Seq<char>,
    node_name: Seq<char>,
    generation: u64,
) -> SetupView {
    SetupView {
        account,
        run,
        node_name,
        generation,
        user_token: Seq::empty(),
        frpc_path: Seq::empty(),
        local_port: 0,
        server_up: false,
        tunnel: None,
        frpc_up: false,
        stage: SetupStage::UserToken,
    }
}

/// The error of a set-up that cannot even begin, if it cannot: the claim is refused, the run was
/// asked to stop before, or the connection has no token.
pub open spec fn setup_refusal(
    holder: Option<OwnerView>,
    registry: RegistryView,
    account: Seq<char>,
    run: Seq<char>,
    proxy_token: Seq<char>,
) -> Option<RpcErrorView> {
    let name = run_name(account, run);
    let known = registry.with_run(name);
    match claim_refusal(holder, run) {
        Some(e) => Some(rpc_error("RESOURCE_BUSY"@, e)),
        None => if known.entries[name].cancelled {
            Some(rpc_error("CANCELLED"@, "测速已强制停止"@))
        } else if proxy_token.len() == 0 {
            Some(rpc_error("EXEC_FAILED"@, "当前连接缺少 proxyToken"@))
        } else {
            None
        },
    }
}

/// Begins to set a test up: claims the resources for the run. A claim that is refused changes
/// nothing, and a set-up that cannot begin for another reason gives the resources back and forgets
/// the run.
pub fn handle_setup(
    resources: &mut Resources,
    registry: &mut RunRegistry,
    params: &E2eSetupParams,
    ctx: &CommandContext,
) -> (res: Result<(Setup, SetupAction), RpcError>)
    requires
        old(registry)@.wf(),
    ensures
        final(registry)@.wf(),
        ({
            let name = run_name(ctx.account_id@, params.run_id@);
            let known = old(registry)@.with_run(name);
            let refusal = setup_refusal(
                old(resources)@.holder,
                old(registry)@,
                ctx.account_id@,
                params.run_id@,
                ctx.proxy_token@,
            );
            match res {
                Ok((setup, action)) => {
                    &&& refusal is None
                    &&& setup@ == new_setup(
                        ctx.account_id@,
                        params.run_id@,
                        params.node_name@,
                        known.entries[name].generation,
                    )
                    &&& setup@.wf()
                    &&& action@ == SetupActionView::FetchUserToken
                    &&& final(registry)@ == known
                    &&& final(resources)@ == old(resources)@.held_by(
                        Some(
                            new_owner(
                                ctx.account_id@,
                                params.run_id@,
                                known.entries[name].generation,
                            ),
                        ),
                    )
                },
                Err(e) => {
                    &&& refusal == Some(e@)
                    &&& final(resources)@ == old(resources)@
                    &&& final(registry)@ == if claim_refusal(
                        old(resources)@.holder,
                        params.run_id@,
                    ) is Some {
                        old(registry)@
                    } else {
                        known.finished(name, known.entries[name].generation)
                    }
                },
            }
        }),
{
    let account = ctx.account_id.as_str();
    let run = params.run_id.as_str();
    let generation: u64 = match claim_run(&mut resources.coordinator, registry, account, run) {
        Ok(g) => g,
        Err(e) => return Err(RpcError::new("RESOURCE_BUSY", e)),
    };
    if is_run_cancelled(registry, account, run, generation) {
        complete_run(&mut resources.coordinator, registry, account, run, generation);
        return Err(RpcError::new("CANCELLED", "测速已强制停止".to_owned()));
    }
    if ctx.proxy_token.as_str().is_empty() {
        complete_run(&mut resources.coordinator, registry, account, run, generation);
        return Err(RpcError::new("EXEC_FAILED", "当前连接缺少 proxyToken".to_owned()));
    }
    let setup = Setup {
        account_id: account.to_owned(),
        run_id: run.to_owned(),
        node_name: params.node_name.as_str().to_owned(),
        generation,
        user_token: String::new(),
        frpc_path: String::new(),
        local_port: 0,
        server_up: false,
        tunnel: None,
        frpc_up: false,
        stage: SetupStage::UserToken,
    };
    assert(setup@.user_token =~= Seq::<char>::empty());
    assert(setup@.frpc_path =~= Seq::<char>::empty());
    Ok((setup, SetupAction::FetchUserToken))
}

impl Setup {
    /// The set-up fails with an error: everything that is held has to be taken down.
    fn fail(&mut self, code: &str, message: String) -> (res: SetupAction)
        ensures
            (final(self)@, res@) == old(self)@.fail(code@, message@),
    {
        self.stage = SetupStage::Over;
        let delete_tunnel = match &self.tunnel {
            Some(t) => Some(t.tunnel_id),
            None => None,
        };
        SetupAction::Undo {
            stop_frpc: self.frpc_up,
            delete_tunnel,
            stop_server: self.server_up,
            error: RpcError::new(code, message),
        }
    }

    /// What an event leads to. A tunnel is remembered before its process is started. It counts as up,
    /// and the resources are marked as such, only once it has answered a probe in time while its
    /// process runs and nobody takes the resources down.
    pub fn advance(
        &mut self,
        resources: &mut Resources,
        registry: &RunRegistry,
        event: SetupEvent,
    ) -> (res: SetupAction)
        requires
            old(self)@.wf(),
            old(self)@.expects(event@),
        ensures
            final(self)@.wf(),
            ({
                let before = old(self)@;
                let cancelled = registry@.is_cancelled(
                    run_name(before.account, before.run),
                    before.generation,
                );
                let may = may_become_ready(
                    old(resources)@.holder,
                    before.account,
                    before.run,
                    before.generation,
                );
                &&& (final(self)@, res@) == before.stepped(event@, cancelled, may)
                &&& final(resources)@ == if res@ is Answer {
                    old(resources)@.held_by(made_ready(old(resources)@.holder))
                } else if res@ is StartFrpc {
                    ResourcesView {
                        tunnel_id: Some(event@->Tunnel_0->Ok_0.tunnel_id),
                        ..old(resources)@
                    }
                } else {
                    old(resources)@
                }
            }),
    {
        match event {
            SetupEvent::UserToken(Ok(token)) => {
                self.user_token = token;
                self.stage = SetupStage::Frpc;
                SetupAction::PrepareFrpc
            },
            SetupEvent::UserToken(Err(e)) => self.fail("FRPC_AUTH_FAILED", e),
            SetupEvent::Frpc(Ok(path)) => {
                self.frpc_path = path;
                self.stage = SetupStage::Server;
                SetupAction::StartServer
            },
            SetupEvent::Frpc(Err(e)) => self.fail("FRPC_PREPARE_FAILED", e),
            SetupEvent::Server(Ok(port)) => {
                self.local_port = port;
                self.server_up = true;
                self.stage = SetupStage::Tunnel;
                SetupAction::CreateTunnel(self.node_name.as_str().to_owned(), port)
            },
            SetupEvent::Server(Err(e)) => self.fail("EXEC_FAILED", e),
            SetupEvent::Tunnel(Ok(t)) => {
                let settings = FrpcSettings {
                    node_ip: t.node_ip.as_str().to_owned(),
                    server_port: t.server_port,
                    user_token: self.user_token.as_str().to_owned(),
                    node_token: t.node_token.as_str().to_owned(),
                    local_port: self.local_port,
                    remote_port: t.remote_port,
                    tunnel_name: t.tunnel_name.as_str().to_owned(),
                };
                let tunnel_id: i64 = t.tunnel_id;
                self.tunnel = Some(t);
                if self.is_cancelled(registry) {
                    self.fail("CANCELLED", "测速已强制停止".to_owned())
                } else {
                    resources.tunnel_id = Some(tunnel_id);
                    self.stage = SetupStage::Start;
                    SetupAction::StartFrpc(self.frpc_path.as_str().to_owned(), settings)
                }
            },
            SetupEvent::Tunnel(Err(e)) => self.fail("EXEC_FAILED", e),
            SetupEvent::Started(Ok(_)) => {
                self.frpc_up = true;
                self.stage = SetupStage::Check;
                SetupAction::CheckFrpc
            },
            SetupEvent::Started(Err(e)) => self.fail("EXEC_FAILED", e),
            SetupEvent::Checked(exit) => {
                if self.is_cancelled(registry) {
                    return self.fail("CANCELLED", "测速已强制停止".to_owned());
                }
                match exit {
                    Some(e) => self.fail("FRPC_START_FAILED", e),
                    None => {
                        self.stage = SetupStage::Probe;
                        SetupAction::Probe(self.tunnel_address())
                    },
                }
            },
            SetupEvent::Probed(up, elapsed_ms) => {
                if up && elapsed_ms <= TUNNEL_READY_TIMEOUT_MS {
                    if resources.coordinator.mark_ready(
                        self.account_id.as_str(),
                        self.run_id.as_str(),
                        self.generation,
                    ) {
                        self.stage = SetupStage::Ready;
                        SetupAction::Answer(self.answer())
                    } else {
                        self.fail("CANCELLED", "测速资源已进入清理流程".to_owned())
                    }
                } else if elapsed_ms >= TUNNEL_READY_TIMEOUT_MS {
                    let place = self.tunnel_address();
                    self.fail(
                        "TUNNEL_READY_TIMEOUT",
                        "隧道在 30 秒内未就绪: ".to_owned().concat(place.as_str()),
                    )
                } else {
                    self.stage = SetupStage::Check;
                    SetupAction::Wait
                }
            },
        }
    }

    /// Whether this is what the set-up waits for.
    pub fn awaits(&self, event: &SetupEvent) -> (res: bool)
        ensures
            res == self@.expects(event@),
    {
        match event {
            SetupEvent::UserToken(_) => self.stage == SetupStage::UserToken,
            SetupEvent::Frpc(_) => self.stage == SetupStage::Frpc,
            SetupEvent::Server(_) => self.stage == SetupStage::Server,
            SetupEvent::Tunnel(_) => self.stage == SetupStage::Tunnel,
            SetupEvent::Started(_) => self.stage == SetupStage::Start,
            SetupEvent::Checked(_) => self.stage == SetupStage::Check,
            SetupEvent::Probed(_, _) => self.stage == SetupStage::Probe,
        }
    }

    /// Ends a set-up that has failed, once its process was stopped and its tunnel deleted: the server
    /// stops where that is said, the resources are free, and the run is forgotten.
    pub fn undone(&self, resources: &mut Resources, registry: &mut RunRegistry, stop_server: bool)
        requires
            old(registry)@.wf(),
        ensures
            final(registry)@.wf(),
            final(resources)@ == resources_undone(old(resources)@, self@, stop_server),
            final(registry)@ == old(registry)@.finished(
                run_name(self@.account, self@.run),
                self@.generation,
            ),
    {
        if stop_server {
            resources.server.stop();
        }
        complete_run(
            &mut resources.coordinator,
            registry,
            self.account_id.as_str(),
            self.run_id.as_str(),
            self.generation,
        );
    }

    /// Whether the run was asked to stop.
    fn is_cancelled(&self, registry: &RunRegistry) -> (res: bool)
        ensures
            res == registry@.is_cancelled(run_name(self@.account, self@.run), self@.generation),
    {
        is_run_cancelled(registry, self.account_id.as_str(), self.run_id.as_str(), self.generation)
    }

    /// The address of the tunnel on its node.
    fn tunnel_address(&self) -> (res: String)
        requires
            self@.tunnel is Some,
        ensures
            res@ == host_port(self@.tunnel->0.node_ip, self@.tunnel->0.remote_port),
    {
        match &self.tunnel {
            Some(t) => address(t.node_ip.as_str(), t.remote_port),
            None => String::new(),
        }
    }

    /// What is answered once the tunnel is up.
    fn answer(&self) -> (res: Json)
        requires
            self@.tunnel is Some,
        ensures
            res@ == setup_answer(self@.tunnel->0),
    {
        match &self.tunnel {
            Some(t) => {
                let result = E2eSetupResult {
                    success: true,
                    node_ip: t.node_ip.as_str().to_owned(),
                    remote_port: t.remote_port,
                    tunnel_id: t.tunnel_id,
                    error: None,
                    protocol_version: PROTOCOL_VERSION as u8,
                };
                assert(result_view(result)->Object_0 =~= setup_answer(t@)->Object_0);
                result.to_json()
            },
            None => Json::Null,
        }
    }
}

/// What is held once a set-up that has failed has ended.
pub open spec fn resources_undone(
    r: ResourcesView,
    setup: SetupView,
    stop_server: bool,
) -> ResourcesView {
    ResourcesView {
        holder: released(r.holder, setup.account, setup.run, setup.generation),
        server: if stop_server {
            SpeedServer { running: false, port: 0 }
        } else {
            r.server
        },
        ..r
    }
}

/// Once a set-up that held the resources has ended, they are free for the next run, its own run
/// counts as cancelled, and a server that it had started does not run and has no port.
pub proof fn law_undone_setup_frees_everything(
    r: ResourcesView,
    registry: RegistryView,
    setup: SetupView,
    stop_server: bool,
    next_run: Seq<char>,
)
    requires
        owned_by(r.holder, setup.account, setup.run, setup.generation),
    ensures
        ({
            let after = resources_undone(r, setup, stop_server);
            let name = run_name(setup.account, setup.run);
            &&& after.holder is None
            &&& next_run.len() > 0 ==> claim_refusal(after.holder, next_run) is None
            &&& registry.finished(name, setup.generation).is_cancelled(name, setup.generation)
            &&& stop_server ==> !after.server.running && after.server.port == 0
            &&& !stop_server ==> after.server == r.server
        }),
{
}

/// A set-up that fails takes down everything that it holds at that moment, and nothing else: the
/// process, the tunnel and the server, as far as they have been started.
pub proof fn law_failed_setup_leaves_nothing(
    setup: SetupView,
    event: SetupEventView,
    cancelled: bool,
    may_be_ready: bool,
)
    requires
        setup.wf(),
        setup.expects(event),
    ensures
        ({
            let (next, action) = setup.stepped(event, cancelled, may_be_ready);
            let tunnel = match event {
                SetupEventView::Tunnel(Ok(t)) => Some(t.tunnel_id),
                _ => match setup.tunnel {
                    Some(t) => Some(t.tunnel_id),
                    None => None,
                },
            };
            &&& next.wf()
            &&& next.stage == SetupStage::Over <==> action is Undo
            &&& action matches SetupActionView::Undo { stop_frpc, delete_tunnel, stop_server, error }
                ==> {
                &&& stop_frpc == setup.frpc_up
                &&& delete_tunnel == tunnel
                &&& stop_server == setup.server_up
            }
        }),
{
}

/// An event of a set-up, with what held when it happened.
pub struct SetupMoment {
    pub event: SetupEventView,
    pub cancelled: bool,
    pub may_be_ready: bool,
}

/// A set-up after a series of events.
pub open spec fn setup_after(setup: SetupView, moments: Seq<SetupMoment>) -> SetupView
    decreases moments.len(),
{
    if moments.len() == 0 {
        setup
    } else {
        let m = moments.last();
        setup_after(setup, moments.drop_last()).stepped(m.event, m.cancelled, m.may_be_ready).0
    }
}

/// Whether every event of a series is one that the set-up waits for when it happens.
pub open spec fn setup_follows(setup: SetupView, moments: Seq<SetupMoment>) -> bool
    decreases moments.len(),
{
    moments.len() > 0 ==> setup_follows(setup, moments.drop_last()) && setup_after(
        setup,
        moments.drop_last(),
    ).expects(moments.last().event)
}

/// Whether the speed server was started in a series of events.
pub open spec fn server_started(moments: Seq<SetupMoment>) -> bool
    decreases moments.len(),
{
    moments.len() > 0 && (moments.last().event matches SetupEventView::Server(Ok(_))
        || server_started(moments.drop_last()))
}

/// Whether the process was started in a series of events.
pub open spec fn frpc_started(moments: Seq<SetupMoment>) -> bool
    decreases moments.len(),
{
    moments.len() > 0 && (moments.last().event matches SetupEventView::Started(Ok(_))
        || frpc_started(moments.drop_last()))
}

/// The tunnel that was created in a series of events.
pub open spec fn tunnel_created(moments: Seq<SetupMoment>) -> Option<i64>
    decreases moments.len(),
{
    if moments.len() == 0 {
        None
    } else {
        match moments.last().event {
            SetupEventView::Tunnel(Ok(t)) => Some(t.tunnel_id),
            _ => tunnel_created(moments.drop_last()),
        }
    }
}

/// Over any series of events a set-up holds exactly what was started in it, and where it fails it
/// takes down exactly that: the server, the process and the tunnel.
pub proof fn law_failed_setup_undoes_all_it_did(
    account: Seq<char>,
    run: Seq<char>,
    node_name: Seq<char>,
    generation: u64,
    moments: Seq<SetupMoment>,
)
    requires
        setup_follows(new_setup(account, run, node_name, generation), moments),
    ensures
        ({
            let first = new_setup(account, run, node_name, generation);
            let now = setup_after(first, moments);
            &&& now.wf()
            &&& now.server_up == server_started(moments)
            &&& now.frpc_up == frpc_started(moments)
            &&& match now.tunnel {
                Some(t) => tunnel_created(moments) == Some(t.tunnel_id),
                None => tunnel_created(moments) is None,
            }
            &&& now.stage == SetupStage::Over ==> {
                let m = moments.last();
                let action = setup_after(first, moments.drop_last()).stepped(
                    m.event,
                    m.cancelled,
                    m.may_be_ready,
                ).1;
                action matches SetupActionView::Undo { stop_frpc, delete_tunnel, stop_server, error }
                    && stop_frpc == frpc_started(moments) && stop_server == server_started(moments)
                    && delete_tunnel == tunnel_created(moments)
            }
        }),
    decreases moments.len(),
{
    if moments.len() > 0 {
        law_failed_setup_undoes_all_it_did(
            account,
            run,
            node_name,
            generation,
            moments.drop_last(),
        );
        let before = setup_after(
            new_setup(account, run, node_name, generation),
            moments.drop_last(),
        );
        let m = moments.last();
        law_failed_setup_leaves_nothing(before, m.event, m.cancelled, m.may_be_ready);
    }
}

/// An address is answered only where the tunnel has just answered a probe in time, its process and
/// the server are up, and the run may mark its resources as up. The answer names that tunnel.
pub proof fn law_only_a_live_tunnel_is_answered(
    setup: SetupView,
    event: SetupEventView,
    cancelled: bool,
    may_be_ready: bool,
)
    requires
        setup.wf(),
        setup.expects(event),
        setup.stepped(event, cancelled, may_be_ready).1 is Answer,
    ensures
        event matches SetupEventView::Probed(up, ms) && up && ms <= TUNNEL_READY_TIMEOUT_MS,
        setup.frpc_up && setup.server_up && may_be_ready,
        setup.tunnel matches Some(t) && setup.stepped(event, cancelled, may_be_ready).1
            == SetupActionView::Answer(setup_answer(t)),
{
}

/// A run that was asked to stop gets no process started and no probe sent.
pub proof fn law_cancelled_setup_stops(setup: SetupView, event: SetupEventView, may_be_ready: bool)
    requires
        setup.wf(),
        setup.expects(event),
        setup.stage == SetupStage::Tunnel || setup.stage == SetupStage::Check,
    ensures
        setup.stepped(event, true, may_be_ready).1 is Undo,
{
}

// ----- taking a test down -----

/// What is to be done about a request to take a test down.
#[derive(Debug)]
pub enum CleanupStart {
    /// Nothing, this is the answer.
    Answer(Json),
    /// The run of this generation is taken down: the process stops, and the tunnel named here is
    /// deleted.
    Clean(u64, Option<i64>),
}

/// The name of the run in the parameters of a request.
pub open spec fn cleanup_run(params: JsonView) -> Seq<char> {
    params.text_or("runId"@, ""@)
}

/// The answer that nothing was taken down.
pub open spec fn not_cleaned(reason: Seq<char>) -> JsonView {
    JsonView::Object(
        seq![("cleaned"@, JsonView::Bool(false)), ("reason"@, JsonView::Text(reason))],
    )
}

/// The answer that nothing was taken down.
fn make_not_cleaned(reason: &str) -> (res: Json)
    ensures
        res@ == not_cleaned(reason@),
{
    let mut members: Vec<JsonMember> = Vec::new();
    members.push(member("cleaned", Json::Bool(false)));
    members.push(member("reason", Json::string(reason)));
    let res = Json::object(members);
    assert(member_views(members@) =~= not_cleaned(reason@)->Object_0);
    res
}

/// What is held once a test is being taken down.
pub open spec fn cleanup_begun(r: ResourcesView) -> ResourcesView {
    r.held_by(with_cleaning(r.holder, true))
}

/// What is held once taking a test down has failed: all that was held before.
pub open spec fn cleanup_failed(
    r: ResourcesView,
    account: Seq<char>,
    run: Seq<char>,
    generation: u64,
) -> ResourcesView {
    if is_cleaning(r.holder, account, run, generation) {
        r.held_by(with_cleaning(r.holder, false))
    } else {
        r
    }
}

/// What is held once a test has been taken down: no tunnel is remembered, and the server is stopped.
pub open spec fn cleanup_done(
    r: ResourcesView,
    account: Seq<char>,
    run: Seq<char>,
    generation: u64,
) -> ResourcesView {
    ResourcesView {
        holder: released(r.holder, account, run, generation),
        tunnel_id: None,
        server: SpeedServer { running: false, port: 0 },
    }
}

/// Begins to take a test down: only the run that holds the resources, once they are up, and one
/// request at a time.
pub fn handle_cleanup(resources: &mut Resources, params: &Json, ctx: &CommandContext) -> (res:
    CleanupStart)
    ensures
        ({
            let run = cleanup_run(params@);
            let before = old(resources)@;
            let mine = before.holder matches Some(o) && o.account == ctx.account_id@ && o.run == run;
            match res {
                CleanupStart::Clean(generation, tunnel) => {
                    &&& may_clean(before.holder, ctx.account_id@, run, generation)
                    &&& tunnel == before.tunnel_id
                    &&& final(resources)@ == cleanup_begun(before)
                },
                CleanupStart::Answer(j) => {
                    &&& final(resources)@ == before
                    &&& !mine ==> j@ == not_cleaned("RUN_NOT_ACTIVE"@)
                    &&& mine ==> {
                        &&& j@ == not_cleaned("CLEANUP_IN_PROGRESS"@)
                        &&& !may_clean(
                            before.holder,
                            ctx.account_id@,
                            run,
                            before.holder->0.generation,
                        )
                    }
                },
            }
        }),
{
    let run = params.text_or("runId", "");
    let account = ctx.account_id.as_str();
    let generation: u64 = match resources.coordinator.active_generation(account, run.as_str()) {
        Some(g) => g,
        None => return CleanupStart::Answer(make_not_cleaned("RUN_NOT_ACTIVE")),
    };
    if !resources.coordinator.begin_cleanup(account, run.as_str(), generation) {
        return CleanupStart::Answer(make_not_cleaned("CLEANUP_IN_PROGRESS"));
    }
    CleanupStart::Clean(generation, resources.tunnel_id)
}

/// The answer that the test was taken down.
pub open spec fn cleaned() -> JsonView {
    JsonView::Object(seq![("cleaned"@, JsonView::Bool(true))])
}

/// The answer once the tunnel was deleted, or was not for a reason.
pub open spec fn cleanup_answer(deleted: Result<(), Seq<char>>) -> Result<JsonView, RpcErrorView> {
    match deleted {
        Ok(_) => Ok(cleaned()),
        Err(e) => Err(rpc_error("CLEANUP_FAILED"@, e)),
    }
}

/// Ends taking a test down, given what became of deleting the tunnel. Where that failed the
/// resources stay with the run, the tunnel stays remembered and the server runs on, so that the run
/// can ask again; else the run has ended and everything is free.
pub fn finish_cleanup(
    resources: &mut Resources,
    registry: &mut RunRegistry,
    params: &Json,
    ctx: &CommandContext,
    generation: u64,
    deleted: Result<(), String>,
) -> (res: CommandResult)
    requires
        old(registry)@.wf(),
    ensures
        final(registry)@.wf(),
        ({
            let run = cleanup_run(params@);
            let before = old(resources)@;
            match deleted {
                Ok(_) => {
                    &&& answer_view(res) == cleanup_answer(Ok(()))
                    &&& final(resources)@ == cleanup_done(before, ctx.account_id@, run, generation)
                    &&& final(registry)@ == old(registry)@.finished(
                        run_name(ctx.account_id@, run),
                        generation,
                    )
                },
                Err(m) => {
                    &&& answer_view(res) == cleanup_answer(Err(m@))
                    &&& final(registry)@ == old(registry)@
                    &&& final(resources)@ == cleanup_failed(
                        before,
                        ctx.account_id@,
                        run,
                        generation,
                    )
                },
            }
        }),
{
    let run = params.text_or("runId", "");
    let account = ctx.account_id.as_str();
    match deleted {
        Ok(_) => {
            resources.tunnel_id = None;
            resources.server.stop();
            complete_run(&mut resources.coordinator, registry, account, run.as_str(), generation);
            let mut members: Vec<JsonMember> = Vec::new();
            members.push(member("cleaned", Json::Bool(true)));
            let res = Json::object(members);
            assert(member_views(members@) =~= cleaned()->Object_0);
            Ok(res)
        },
        Err(m) => {
            resources.coordinator.abort_cleanup(account, run.as_str(), generation);
            Err(RpcError::new("CLEANUP_FAILED", m))
        },
    }
}

/// A request to take a test down whose tunnel could not be deleted leaves everything as it was: the
/// run holds the resources, which are up and not being taken down, the tunnel is still remembered
/// and the server still runs. So the run can ask again, the same tunnel is deleted then, and once
/// that succeeds everything is free.
pub proof fn law_failed_cleanup_can_be_repeated(
    before: ResourcesView,
    account: Seq<char>,
    run: Seq<char>,
    generation: u64,
    reason: Seq<char>,
)
    requires
        may_clean(before.holder, account, run, generation),
    ensures
        ({
            let failed = cleanup_failed(cleanup_begun(before), account, run, generation);
            let done = cleanup_done(cleanup_begun(failed), account, run, generation);
            &&& cleanup_answer(Err(reason)) == Err::<JsonView, _>(
                rpc_error("CLEANUP_FAILED"@, reason),
            )
            &&& failed == before
            &&& failed.tunnel_id == before.tunnel_id
            &&& failed.server == before.server
            &&& may_clean(failed.holder, account, run, generation)
            &&& cleanup_answer(Ok(())) == Ok::<_, RpcErrorView>(cleaned())
            &&& done.holder is None
            &&& done.tunnel_id is None
            &&& !done.server.running
        }),
{
}

// ----- what a set-up tells whom -----

/// The token of the user that came in a series of events.
pub open spec fn token_given(moments: Seq<SetupMoment>) -> Option<Seq<char>>
    decreases moments.len(),
{
    if moments.len() == 0 {
        None
    } else {
        match moments.last().event {
            SetupEventView::UserToken(Ok(token)) => Some(token),
            _ => token_given(moments.drop_last()),
        }
    }
}

/// The path of the frpc program that came in a series of events.
pub open spec fn path_given(moments: Seq<SetupMoment>) -> Option<Seq<char>>
    decreases moments.len(),
{
    if moments.len() == 0 {
        None
    } else {
        match moments.last().event {
            SetupEventView::Frpc(Ok(path)) => Some(path),
            _ => path_given(moments.drop_last()),
        }
    }
}

/// The port of the speed server that came in a series of events.
pub open spec fn port_given(moments: Seq<SetupMoment>) -> Option<u16>
    decreases moments.len(),
{
    if moments.len() == 0 {
        None
    } else {
        match moments.last().event {
            SetupEventView::Server(Ok(port)) => Some(port),
            _ => port_given(moments.drop_last()),
        }
    }
}

/// The whole of the tunnel that came in a series of events.
pub open spec fn tunnel_given(moments: Seq<SetupMoment>) -> Option<TempTunnelView>
    decreases moments.len(),
{
    if moments.len() == 0 {
        None
    } else {
        match moments.last().event {
            SetupEventView::Tunnel(Ok(t)) => Some(t),
            _ => tunnel_given(moments.drop_last()),
        }
    }
}

/// What a set-up has come to know is what its events told it, and how far it has come goes with them.
proof fn lemma_setup_knows_its_events(
    account: Seq<char>,
    run: Seq<char>,
    node_name: Seq<char>,
    generation: u64,
    moments: Seq<SetupMoment>,
)
    requires
        setup_follows(new_setup(account, run, node_name, generation), moments),
    ensures
        ({
            let now = setup_after(new_setup(account, run, node_name, generation), moments);
            &&& now.account == account
            &&& now.run == run
            &&& now.generation == generation
            &&& now.node_name == node_name
            &&& now.stage != SetupStage::UserToken && now.stage != SetupStage::Over
                ==> token_given(moments) == Some(now.user_token)
            &&& now.stage == SetupStage::Server || now.stage == SetupStage::Tunnel || now.stage
                == SetupStage::Start || now.stage == SetupStage::Check || now.stage
                == SetupStage::Probe || now.stage == SetupStage::Ready ==> path_given(moments)
                == Some(now.frpc_path)
            &&& now.stage == SetupStage::Tunnel || now.stage == SetupStage::Start || now.stage
                == SetupStage::Check || now.stage == SetupStage::Probe || now.stage
                == SetupStage::Ready ==> port_given(moments) == Some(now.local_port)
            &&& now.tunnel == tunnel_given(moments)
        }),
    decreases moments.len(),
{
    if moments.len() > 0 {
        lemma_setup_knows_its_events(account, run, node_name, generation, moments.drop_last());
        law_failed_setup_undoes_all_it_did(
            account,
            run,
            node_name,
            generation,
            moments.drop_last(),
        );
    }
}

/// Once the tunnel is there, frpc is started from the path that was prepared, and every setting is the
/// one of its source: the address, the port and the token of the node, the port and the name of the
/// tunnel are those of the tunnel, the token of the user is the one that was fetched, and the local
/// port is the one that the speed server listens on. Nothing is started where the run was asked to
/// stop.
pub proof fn law_frpc_gets_each_setting_from_its_source(
    account: Seq<char>,
    run: Seq<char>,
    node_name: Seq<char>,
    generation: u64,
    moments: Seq<SetupMoment>,
    t: TempTunnelView,
    cancelled: bool,
    may_be_ready: bool,
)
    requires
        setup_follows(new_setup(account, run, node_name, generation), moments),
        setup_after(new_setup(account, run, node_name, generation), moments).expects(
            SetupEventView::Tunnel(Ok(t)),
        ),
    ensures
        ({
            let action = setup_after(
                new_setup(account, run, node_name, generation),
                moments,
            ).stepped(SetupEventView::Tunnel(Ok(t)), cancelled, may_be_ready).1;
            &&& !cancelled <==> action is StartFrpc
            &&& action matches SetupActionView::StartFrpc(path, s) ==> {
                &&& path_given(moments) == Some(path)
                &&& s.node_ip == t.node_ip
                &&& s.server_port == t.server_port
                &&& s.node_token == t.node_token
                &&& s.remote_port == t.remote_port
                &&& s.tunnel_name == t.tunnel_name
                &&& token_given(moments) == Some(s.user_token)
                &&& port_given(moments) == Some(s.local_port)
            }
        }),
{
    lemma_setup_knows_its_events(account, run, node_name, generation, moments);
}

/// The tunnel is asked for on the node that the request names and leads to the port that the speed
/// server listens on.
pub proof fn law_tunnel_leads_to_the_server(
    account: Seq<char>,
    run: Seq<char>,
    node_name: Seq<char>,
    generation: u64,
    moments: Seq<SetupMoment>,
    port: u16,
    cancelled: bool,
    may_be_ready: bool,
)
    requires
        setup_follows(new_setup(account, run, node_name, generation), moments),
        setup_after(new_setup(account, run, node_name, generation), moments).expects(
            SetupEventView::Server(Ok(port)),
        ),
    ensures
        setup_after(new_setup(account, run, node_name, generation), moments).stepped(
            SetupEventView::Server(Ok(port)),
            cancelled,
            may_be_ready,
        ).1 == SetupActionView::CreateTunnel(node_name, port),
{
    lemma_setup_knows_its_events(account, run, node_name, generation, moments);
}

/// The probe goes to the address of the node and the port of the tunnel that came in, in words with a
/// colon between them.
pub proof fn law_probe_goes_through_the_tunnel(
    account: Seq<char>,
    run: Seq<char>,
    node_name: Seq<char>,
    generation: u64,
    moments: Seq<SetupMoment>,
    may_be_ready: bool,
)
    requires
        setup_follows(new_setup(account, run, node_name, generation), moments),
        setup_after(new_setup(account, run, node_name, generation), moments).expects(
            SetupEventView::Checked(None),
        ),
    ensures
        tunnel_given(moments) matches Some(t) && setup_after(
            new_setup(account, run, node_name, generation),
            moments,
        ).stepped(SetupEventView::Checked(None), false, may_be_ready).1 == SetupActionView::Probe(
            t.node_ip + seq![':'] + decimal(t.remote_port as nat),
        ),
{
    reveal_strlit(":");
    lemma_setup_knows_its_events(account, run, node_name, generation, moments);
    law_failed_setup_undoes_all_it_did(account, run, node_name, generation, moments);
    let t = tunnel_given(moments)->0;
    assert(":"@ =~= seq![':']);
    assert(host_port(t.node_ip, t.remote_port) =~= t.node_ip + seq![':'] + decimal(
        t.remote_port as nat,
    ));
}

/// A probe that is answered within the half minute, while the run may mark its resources as up, is
/// answered with the address, the port and the identity of the tunnel that came in, as a success of
/// the second version of the protocol. One that is not answered is repeated until the half minute is
/// over, and then the set-up fails with a timeout.
pub proof fn law_answered_probe_names_the_tunnel(
    account: Seq<char>,
    run: Seq<char>,
    node_name: Seq<char>,
    generation: u64,
    moments: Seq<SetupMoment>,
    up: bool,
    elapsed_ms: u64,
    cancelled: bool,
    may_be_ready: bool,
)
    requires
        setup_follows(new_setup(account, run, node_name, generation), moments),
        setup_after(new_setup(account, run, node_name, generation), moments).expects(
            SetupEventView::Probed(up, elapsed_ms),
        ),
    ensures
        ({
            let (next, action) = setup_after(
                new_setup(account, run, node_name, generation),
                moments,
            ).stepped(SetupEventView::Probed(up, elapsed_ms), cancelled, may_be_ready);
            &&& up && elapsed_ms <= 30_000 && may_be_ready ==> {
                &&& action matches SetupActionView::Answer(j) && {
                    &&& tunnel_given(moments) matches Some(t) && j.get("nodeIp"@) == Some(
                        JsonView::Text(t.node_ip),
                    ) && j.unsigned("remotePort"@) == Some(t.remote_port as u64) && j.signed(
                        "tunnelId"@,
                    ) == Some(t.tunnel_id)
                    &&& j.flag("success"@) == Some(true)
                    &&& j.get("error"@) == Some(JsonView::Null)
                    &&& j.unsigned("protocolVersion"@) == Some(2u64)
                }
            }
            &&& up && elapsed_ms <= 30_000 && !may_be_ready ==> {
                action matches SetupActionView::Undo { error, .. } && error.code == "CANCELLED"@
            }
            &&& !up && elapsed_ms < 30_000 ==> action is Wait && next.expects(
                SetupEventView::Checked(None),
            )
            &&& elapsed_ms > 30_000 || !up && elapsed_ms >= 30_000 ==> {
                action matches SetupActionView::Undo { error, .. } && error.code
                    == "TUNNEL_READY_TIMEOUT"@
            }
        }),
{
    lemma_setup_knows_its_events(account, run, node_name, generation, moments);
    law_failed_setup_undoes_all_it_did(account, run, node_name, generation, moments);
    let t = tunnel_given(moments)->0;
    reveal_strlit("success");
    reveal_strlit("nodeIp");
    reveal_strlit("remotePort");
    reveal_strlit("tunnelId");
    reveal_strlit("error");
    reveal_strlit("protocolVersion");
    assert("success"@.len() == 7);
    assert("nodeIp"@.len() == 6);
    assert("remotePort"@.len() == 10);
    assert("tunnelId"@.len() == 8);
    assert("error"@.len() == 5);
    assert("protocolVersion"@.len() == 15);
    reveal_with_fuel(crate::json::member_from, 7);
}

/// Every step that fails ends the set-up with the error of that step, and with the reason that came
/// in.
pub proof fn law_failed_step_tells_its_reason(
    setup: SetupView,
    reason: Seq<char>,
    cancelled: bool,
    may_be_ready: bool,
)
    ensures
        setup.stepped(SetupEventView::UserToken(Err(reason)), cancelled, may_be_ready).1 matches SetupActionView::Undo {
            error,
            ..
        } && error.code == "FRPC_AUTH_FAILED"@ && error.message == reason,
        setup.stepped(SetupEventView::Frpc(Err(reason)), cancelled, may_be_ready).1 matches SetupActionView::Undo {
            error,
            ..
        } && error.code == "FRPC_PREPARE_FAILED"@ && error.message == reason,
        setup.stepped(SetupEventView::Server(Err(reason)), cancelled, may_be_ready).1 matches SetupActionView::Undo {
            error,
            ..
        } && error.code == "EXEC_FAILED"@ && error.message == reason,
        setup.stepped(SetupEventView::Tunnel(Err(reason)), cancelled, may_be_ready).1 matches SetupActionView::Undo {
            error,
            ..
        } && error.code == "EXEC_FAILED"@ && error.message == reason,
        setup.stepped(SetupEventView::Started(Err(reason)), cancelled, may_be_ready).1 matches SetupActionView::Undo {
            error,
            ..
        } && error.code == "EXEC_FAILED"@ && error.message == reason,
        setup.stepped(SetupEventView::Checked(Some(reason)), false, may_be_ready).1 matches SetupActionView::Undo {
            error,
            ..
        } && error.code == "FRPC_START_FAILED"@ && error.message == reason,
        setup.stepped(SetupEventView::Checked(Some(reason)), true, may_be_ready).1 matches SetupActionView::Undo {
            error,
            ..
        } && error.code == "CANCELLED"@,
{
}

/// A set-up goes its way step by step as long as everything succeeds: the token of the user, the frpc
/// program, the server, the tunnel, the process, and the probe.
pub proof fn law_steps_come_in_their_order(
    setup: SetupView,
    text: Seq<char>,
    port: u16,
    t: TempTunnelView,
    cancelled: bool,
    may_be_ready: bool,
)
    ensures
        ({
            let (a, x) = setup.stepped(SetupEventView::UserToken(Ok(text)), cancelled, may_be_ready);
            let (b, y) = setup.stepped(SetupEventView::Frpc(Ok(text)), cancelled, may_be_ready);
            let (c, z) = setup.stepped(SetupEventView::Server(Ok(port)), cancelled, may_be_ready);
            let (d, u) = setup.stepped(SetupEventView::Tunnel(Ok(t)), false, may_be_ready);
            let (e, v) = setup.stepped(SetupEventView::Started(Ok(())), cancelled, may_be_ready);
            let (f, w) = setup.stepped(SetupEventView::Checked(None), false, may_be_ready);
            &&& x is PrepareFrpc && a.expects(SetupEventView::Frpc(Ok(text)))
            &&& y is StartServer && b.expects(SetupEventView::Server(Ok(port)))
            &&& z is CreateTunnel && c.expects(SetupEventView::Tunnel(Ok(t)))
            &&& u is StartFrpc && d.expects(SetupEventView::Started(Ok(())))
            &&& v is CheckFrpc && e.expects(SetupEventView::Checked(None))
            &&& w is Probe && f.expects(SetupEventView::Probed(true, 0))
        }),
{
}

/// A test can begin exactly where nobody holds the resources, the run has a name and was not asked to
/// stop, and the connection has a token. What is wrong first is what is answered.
pub proof fn law_test_begins_only_with_everything_there(
    holder: Option<OwnerView>,
    registry: RegistryView,
    account: Seq<char>,
    run: Seq<char>,
    proxy_token: Seq<char>,
)
    requires
        registry.wf(),
    ensures
        ({
            let name = run_name(account, run);
            let stopped = registry.entries.contains_key(name) && registry.entries[name].cancelled;
            let refusal = setup_refusal(holder, registry, account, run, proxy_token);
            &&& refusal is None <==> holder is None && run.len() > 0 && !stopped
                && proxy_token.len() > 0
            &&& holder is Some || run.len() == 0 ==> (refusal matches Some(e) && e.code
                == "RESOURCE_BUSY"@)
            &&& holder is None && run.len() > 0 && stopped ==> (refusal matches Some(e) && e.code
                == "CANCELLED"@)
            &&& holder is None && run.len() > 0 && !stopped && proxy_token.len() == 0 ==> (
            refusal matches Some(e) && e.code == "EXEC_FAILED"@)
        }),
{
    super::law_with_run_keeps_wf(registry, run_name(account, run));
}

/// Who has just got hold of the resources holds them, and nobody else does.
pub proof fn law_claim_makes_the_holder(
    account: Seq<char>,
    run: Seq<char>,
    generation: u64,
    other_account: Seq<char>,
    other_run: Seq<char>,
    other_generation: u64,
)
    ensures
        owned_by(
            Some(new_owner(account, run, generation)),
            other_account,
            other_run,
            other_generation,
        ) <==> other_account == account && other_run == run && other_generation == generation,
        may_become_ready(Some(new_owner(account, run, generation)), account, run, generation),
        !is_cleaning(Some(new_owner(account, run, generation)), account, run, generation),
        !may_become_ready(
            with_cleaning(Some(new_owner(account, run, generation)), true),
            account,
            run,
            generation,
        ),
{
}

/// A line that asks for a test of so many milliseconds gets data for just that time where it lies
/// between five seconds and two minutes, and is refused otherwise. A line that is neither a probe nor
/// such a request is passed over.
pub proof fn law_server_serves_the_time_asked_for(ms: nat, line: Seq<char>)
    requires
        ms <= u64::MAX,
    ensures
        ({
            let request = "SPEEDTEST_TIME "@ + decimal(ms) + "\n"@;
            &&& 5_000 <= ms <= 120_000 ==> line_action(request) == LineActionView::Send(ms)
            &&& ms < 5_000 || ms > 120_000 ==> line_action(request) is Refuse
        }),
        !begins_with(line, "PING "@) && !begins_with(line, "SPEEDTEST_TIME "@) ==> line_action(line)
            is Ignore,
{
    let request = "SPEEDTEST_TIME "@ + decimal(ms) + "\n"@;
    reveal_strlit("SPEEDTEST_TIME ");
    reveal_strlit("SPEEDTEST_TIME");
    reveal_strlit("PING ");
    reveal_strlit("\n");
    crate::text::law_decimal_denotes(ms);
    crate::text::law_decimal_round_trip(ms, u64::MAX as nat);
    let word = decimal(ms);
    assert forall|i: int| 0 <= i < word.len() implies !crate::text::is_space(#[trigger] word[i]) by {
        assert(crate::text::is_digit(word[i]));
    }
    let head = "SPEEDTEST_TIME"@;
    lemma_two_words(head, word);
    assert(request =~= head.push(' ') + word.push('\n'));
    assert(request.subrange(0, 15) =~= "SPEEDTEST_TIME "@);
    if begins_with(request, "PING "@) {
        assert(request.subrange(0, 5)[0] == "PING "@[0]);
    }
}

/// Whoever asks to take a test down names the run in the member `runId`. Nothing else is read, and
/// without that member no run is named.
pub proof fn law_cleanup_is_for_the_named_run(params: JsonView)
    ensures
        params.get("runId"@) matches Some(JsonView::Text(s)) ==> cleanup_run(params) == s,
        params.get("runId"@) is None ==> cleanup_run(params).len() == 0,
{
    reveal_strlit("");
}

/// The answers of taking a test down: that it was taken down, that it was not and why, or the error
/// that the tunnel could not be deleted.
pub proof fn law_cleanup_answers(reason: Seq<char>)
    ensures
        cleaned().flag("cleaned"@) == Some(true),
        not_cleaned(reason).flag("cleaned"@) == Some(false),
        not_cleaned(reason).text("reason"@) == Some(reason),
        cleanup_answer(Ok(())) matches Ok(j) && j.flag("cleaned"@) == Some(true),
        cleanup_answer(Err(reason)) matches Err(e) && e.code == "CLEANUP_FAILED"@ && e.message
            == reason,
{
    reveal_strlit("cleaned");
    reveal_strlit("reason");
    assert("cleaned"@.len() == 7);
    assert("reason"@.len() == 6);
    reveal_with_fuel(crate::json::member_from, 3);
}

/// The result of a set-up is told as it is, each part under its name, and no error is told where there
/// is none.
pub proof fn law_result_is_told_as_it_is(r: E2eSetupResult)
    ensures
        result_view(r).flag("success"@) == Some(r.success),
        result_view(r).text("nodeIp"@) == Some(r.node_ip@),
        result_view(r).unsigned("remotePort"@) == Some(r.remote_port as u64),
        result_view(r).signed("tunnelId"@) == Some(r.tunnel_id),
        r.error matches Some(e) ==> result_view(r).text("error"@) == Some(e@),
        r.error is None ==> result_view(r).get("error"@) == Some(JsonView::Null),
        result_view(r).unsigned("protocolVersion"@) == Some(r.protocol_version as u64),
{
    reveal_strlit("success");
    reveal_strlit("nodeIp");
    reveal_strlit("remotePort");
    reveal_strlit("tunnelId");
    reveal_strlit("error");
    reveal_strlit("protocolVersion");
    assert("success"@.len() == 7);
    assert("nodeIp"@.len() == 6);
    assert("remotePort"@.len() == 10);
    assert("tunnelId"@.len() == 8);
    assert("error"@.len() == 5);
    assert("protocolVersion"@.len() == 15);
    reveal_with_fuel(crate::json::member_from, 7);
}

/// While a test is taken down its run holds the resources, the tunnel and the server stay as they are,
/// and nobody can begin to take it down again.
pub proof fn law_one_cleanup_at_a_time(
    r: ResourcesView,
    account: Seq<char>,
    run: Seq<char>,
    generation: u64,
    other_account: Seq<char>,
    other_run: Seq<char>,
    other_generation: u64,
)
    requires
        may_clean(r.holder, account, run, generation),
    ensures
        cleanup_begun(r).tunnel_id == r.tunnel_id,
        cleanup_begun(r).server == r.server,
        owned_by(cleanup_begun(r).holder, account, run, generation),
        !may_clean(cleanup_begun(r).holder, other_account, other_run, other_generation),
{
    law_cleanup_has_one_owner(r.holder, account, run, generation);
}

/// Once a test has been taken down by the run that held the resources, they are free, no tunnel is
/// remembered, and the server does not run and has no port. A run that does not hold them takes them
/// from nobody, neither in this way nor where its set-up fails.
pub proof fn law_only_the_holder_frees_the_resources(
    r: ResourcesView,
    setup: SetupView,
    stop_server: bool,
)
    ensures
        ({
            let done = cleanup_done(r, setup.account, setup.run, setup.generation);
            let undone = resources_undone(r, setup, stop_server);
            let mine = r.holder matches Some(o) && o.account == setup.account && o.run == setup.run
                && o.generation == setup.generation;
            &&& mine ==> done.holder is None && undone.holder is None
            &&& !mine ==> done.holder == r.holder && undone.holder == r.holder
            &&& done.tunnel_id is None
            &&& !done.server.running && done.server.port == 0
            &&& undone.tunnel_id == r.tunnel_id
        }),
{
}

} // verus!
