//! The health of a set of tunnels, by several methods.
use super::{RpcError, RpcErrorView, rpc_error};
use crate::json::{Json, JsonMember, JsonView, count_view, item_views, member, member_views};
use crate::text::{is_blank, opt_view, same_text, trimmed, views};
use vstd::prelude::*;
use vstd::string::*;

verus! {

/// How long a probe may take where nothing is said, in milliseconds.
pub const DEFAULT_TIMEOUT_MS: u64 = 15_000;

/// What a probe is asked for with.
#[derive(Debug)]
pub struct ProbeParams {
    pub execution_id: String,
    pub methods: Vec<String>,
    pub tunnels: Vec<ProbeTunnel>,
    pub timeout_ms: u64,
}

/// A tunnel that is probed.
#[derive(Debug)]
pub struct ProbeTunnel {
    pub id: String,
    pub node_host: String,
    pub node_port: u16,
    /// The state of the tunnel, where it is known.
    pub tunnel_state: Option<bool>,
    /// The state of the node, where it is known.
    pub node_state: Option<bool>,
}

/// What a method found.
#[derive(Debug)]
pub struct MethodResult {
    pub passed: bool,
    pub duration_ms: u64,
    pub error_code: Option<String>,
}

/// The model of [`MethodResult`].
pub struct MethodView {
    pub passed: bool,
    pub duration_ms: u64,
    pub error_code: Option<Seq<char>>,
}

impl View for MethodResult {
    type V = MethodView;

    open spec fn view(&self) -> MethodView {
        MethodView {
            passed: self.passed,
            duration_ms: self.duration_ms,
            error_code: opt_view(self.error_code),
        }
    }
}

/// The error of a request, if it has one.
pub open spec fn probe_error(params: Result<ProbeParams, String>) -> Option<RpcErrorView> {
    match params {
        Err(e) => Some(rpc_error("INVALID_PARAMS"@, "参数解析失败: "@ + e@)),
        Ok(p) => if trimmed(p.execution_id@).len() == 0 {
            Some(rpc_error("INVALID_PARAMS"@, "executionId 不能为空"@))
        } else {
            None
        },
    }
}

/// Refuses parameters that could not be read, and a blank identity.
pub fn parse_params(params: Result<ProbeParams, String>) -> (res: Result<ProbeParams, RpcError>)
    ensures
        match res {
            Ok(p) => params == Ok::<ProbeParams, String>(p) && probe_error(params) is None,
            Err(e) => probe_error(params) == Some(e@),
        },
{
    match params {
        Ok(p) => {
            if is_blank(p.execution_id.as_str()) {
                return Err(RpcError::new("INVALID_PARAMS", "executionId 不能为空".to_owned()));
            }
            Ok(p)
        },
        Err(e) => Err(
            RpcError::new("INVALID_PARAMS", "参数解析失败: ".to_owned().concat(e.as_str())),
        ),
    }
}

/// What a known or unknown state says.
pub open spec fn state_view(value: Option<bool>, duration_ms: u64) -> MethodView {
    MethodView {
        passed: value == Some(true),
        duration_ms,
        error_code: if value is Some {
            None
        } else {
            Some("UNAVAILABLE"@)
        },
    }
}

/// What a known or unknown state says: an unknown one is no pass.
pub fn state_result(value: Option<bool>, duration_ms: u64) -> (res: MethodResult)
    ensures
        res@ == state_view(value, duration_ms),
{
    match value {
        Some(passed) => MethodResult { passed, duration_ms, error_code: None },
        None => MethodResult {
            passed: false,
            duration_ms,
            error_code: Some("UNAVAILABLE".to_owned()),
        },
    }
}

/// How a method is carried out.
#[derive(Debug)]
pub enum MethodPlan {
    /// By this state.
    State(Option<bool>),
    /// By one connection to this port, with this timeout in seconds.
    Connect(String, u16, u64),
    /// Not at all.
    Unsupported,
}

/// The model of [`MethodPlan`].
pub enum PlanView {
    State(Option<bool>),
    Connect(Seq<char>, u16, u64),
    Unsupported,
}

impl View for MethodPlan {
    type V = PlanView;

    open spec fn view(&self) -> PlanView {
        match self {
            MethodPlan::State(s) => PlanView::State(*s),
            MethodPlan::Connect(host, port, secs) => PlanView::Connect(host@, *port, *secs),
            MethodPlan::Unsupported => PlanView::Unsupported,
        }
    }
}

/// Milliseconds in whole seconds, rounded up and at least one.
pub open spec fn whole_seconds(ms: u64) -> u64 {
    if ms == 0 {
        1
    } else {
        ((ms - 1) / 1000 + 1) as u64
    }
}

/// How a method is carried out on a tunnel.
pub open spec fn method_plan(method: Seq<char>, tunnel: ProbeTunnel, timeout_ms: u64) -> PlanView {
    if method == "tunnel_state"@ {
        PlanView::State(tunnel.tunnel_state)
    } else if method == "node_state"@ {
        PlanView::State(tunnel.node_state)
    } else if method == "tcping"@ {
        PlanView::Connect(tunnel.node_host@, tunnel.node_port, whole_seconds(timeout_ms))
    } else {
        PlanView::Unsupported
    }
}

/// How a method is carried out on a tunnel.
pub fn plan_method(method: &str, tunnel: &ProbeTunnel, timeout_ms: u64) -> (res: MethodPlan)
    ensures
        res@ == method_plan(method@, *tunnel, timeout_ms),
{
    if same_text(method, "tunnel_state") {
        MethodPlan::State(tunnel.tunnel_state)
    } else if same_text(method, "node_state") {
        MethodPlan::State(tunnel.node_state)
    } else if same_text(method, "tcping") {
        let secs: u64 = if timeout_ms == 0 {
            1
        } else {
            (timeout_ms - 1) / 1000 + 1
        };
        MethodPlan::Connect(tunnel.node_host.as_str().to_owned(), tunnel.node_port, secs)
    } else {
        MethodPlan::Unsupported
    }
}

/// What a connection test says, given how many connections failed, or that it could not be run.
pub open spec fn connect_view(loss: Option<u32>, duration_ms: u64) -> MethodView {
    MethodView {
        passed: loss == Some(0u32),
        duration_ms,
        error_code: match loss {
            Some(n) => if n == 0 {
                None
            } else {
                Some("TIMEOUT"@)
            },
            None => Some("EXEC_FAILED"@),
        },
    }
}

/// What a connection test says, given how many connections failed, or that it could not be run.
pub fn connect_result(loss: Option<u32>, duration_ms: u64) -> (res: MethodResult)
    ensures
        res@ == connect_view(loss, duration_ms),
{
    match loss {
        Some(n) => if n == 0 {
            MethodResult { passed: true, duration_ms, error_code: None }
        } else {
            MethodResult { passed: false, duration_ms, error_code: Some("TIMEOUT".to_owned()) }
        },
        None => MethodResult {
            passed: false,
            duration_ms,
            error_code: Some("EXEC_FAILED".to_owned()),
        },
    }
}

/// What a method that is not supported says.
pub fn unsupported_result() -> (res: MethodResult)
    ensures
        res@ == (MethodView {
            passed: false,
            duration_ms: 0,
            error_code: Some("UNSUPPORTED_METHOD"@),
        }),
{
    MethodResult {
        passed: false,
        duration_ms: 0,
        error_code: Some("UNSUPPORTED_METHOD".to_owned()),
    }
}

/// A method passes only by what was found: a state that is known to be good, or a connection that
/// did not fail.
pub proof fn law_unknown_never_passes(state: Option<bool>, loss: Option<u32>, duration_ms: u64)
    ensures
        state_view(state, duration_ms).passed <==> state == Some(true),
        connect_view(loss, duration_ms).passed <==> loss == Some(0u32),
        state is None ==> state_view(state, duration_ms).error_code is Some,
        !connect_view(loss, duration_ms).passed ==> connect_view(loss, duration_ms).error_code
            is Some,
{
}

// ----- the answer -----

/// What the methods found on one tunnel, each under its name.
pub struct MethodResults {
    pub entries: Vec<(String, MethodResult)>,
}

/// The model of what was found: the names with their results.
pub open spec fn entry_views(entries: Seq<(String, MethodResult)>) -> Seq<(Seq<char>, MethodView)> {
    entries.map_values(|e: (String, MethodResult)| (e.0@, e.1@))
}

impl View for MethodResults {
    type V = Seq<(Seq<char>, MethodView)>;

    open spec fn view(&self) -> Seq<(Seq<char>, MethodView)> {
        entry_views(self.entries@)
    }
}

/// The position of a name among the results from position `i` on, the length where it is not there.
pub open spec fn position_from(entries: Seq<(Seq<char>, MethodView)>, name: Seq<char>, i: int) -> int
    decreases entries.len() - i,
{
    if i < 0 || i >= entries.len() {
        entries.len() as int
    } else if entries[i].0 == name {
        i
    } else {
        position_from(entries, name, i + 1)
    }
}

/// The results with one more: it takes the place of an earlier one of the same name.
pub open spec fn with_result(
    entries: Seq<(Seq<char>, MethodView)>,
    name: Seq<char>,
    result: MethodView,
) -> Seq<(Seq<char>, MethodView)> {
    let at = position_from(entries, name, 0);
    if at < entries.len() {
        entries.update(at, (name, result))
    } else {
        entries.push((name, result))
    }
}

/// No name occurs twice.
pub open spec fn names_distinct(entries: Seq<(Seq<char>, MethodView)>) -> bool {
    forall|i: int, j: int|
        0 <= i < entries.len() && 0 <= j < entries.len() && i != j ==> #[trigger] entries[i].0
            != #[trigger] entries[j].0
}

/// The position is that of the first entry of the name.
proof fn lemma_position(entries: Seq<(Seq<char>, MethodView)>, name: Seq<char>, i: int)
    requires
        0 <= i <= entries.len(),
    ensures
        i <= position_from(entries, name, i) <= entries.len(),
        position_from(entries, name, i) < entries.len() ==> entries[position_from(
            entries,
            name,
            i,
        )].0 == name,
        forall|k: int|
            i <= k < position_from(entries, name, i) ==> #[trigger] entries[k].0 != name,
    decreases entries.len() - i,
{
    if i < entries.len() && entries[i].0 != name {
        lemma_position(entries, name, i + 1);
    }
}

/// A further result keeps the names distinct, is found under its name, and leaves what was found
/// by other methods as it was.
pub proof fn law_results_are_kept_by_name(
    entries: Seq<(Seq<char>, MethodView)>,
    name: Seq<char>,
    result: MethodView,
)
    requires
        names_distinct(entries),
    ensures
        names_distinct(with_result(entries, name, result)),
        with_result(entries, name, result).contains((name, result)),
        forall|i: int|
            0 <= i < entries.len() && #[trigger] entries[i].0 != name ==> with_result(
                entries,
                name,
                result,
            )[i] == entries[i],
        entries.len() <= with_result(entries, name, result).len() <= entries.len() + 1,
{
    lemma_position(entries, name, 0);
    let at = position_from(entries, name, 0);
    let all = with_result(entries, name, result);
    assert(all[at] == (name, result));
}

impl MethodResults {
    /// Nothing was found yet.
    pub fn new() -> (res: MethodResults)
        ensures
            res@ == Seq::<(Seq<char>, MethodView)>::empty(),
            names_distinct(res@),
    {
        let res = MethodResults { entries: Vec::new() };
        assert(res@ =~= Seq::<(Seq<char>, MethodView)>::empty());
        res
    }

    /// Keeps what a method found, in place of what it found before.
    pub fn put(&mut self, method: &str, result: MethodResult)
        requires
            names_distinct(old(self)@),
        ensures
            final(self)@ == with_result(old(self)@, method@, result@),
            names_distinct(final(self)@),
    {
        proof {
            law_results_are_kept_by_name(self@, method@, result@);
        }
        let mut i: usize = 0;
        while i < self.entries.len()
            invariant
                i <= self.entries@.len(),
                *self == *old(self),
                position_from(self@, method@, 0) == position_from(self@, method@, i as int),
                names_distinct(with_result(self@, method@, result@)),
            ensures
                *self == *old(self),
                names_distinct(with_result(self@, method@, result@)),
                i <= self.entries@.len(),
                position_from(self@, method@, 0) == i,
            decreases self.entries@.len() - i,
        {
            assert(self@[i as int].0 == self.entries@[i as int].0@);
            if same_text(self.entries[i].0.as_str(), method) {
                break;
            }
            i = i + 1;
        }
        let entry = (method.to_owned(), result);
        if i < self.entries.len() {
            self.entries.set(i, entry);
            assert(self@ =~= old(self)@.update(i as int, (method@, result@)));
        } else {
            self.entries.push(entry);
            assert(self@ =~= old(self)@.push((method@, result@)));
        }
    }
}

/// What a method found, as it is answered.
pub open spec fn method_json(result: MethodView) -> JsonView {
    JsonView::Object(
        seq![
            ("passed"@, JsonView::Bool(result.passed)),
            ("durationMs"@, count_view(result.duration_ms)),
            (
                "errorCode"@,
                match result.error_code {
                    Some(e) => JsonView::Text(e),
                    None => JsonView::Null,
                },
            ),
        ],
    )
}

/// What a method found, as it is answered.
fn make_method_json(result: &MethodResult) -> (res: Json)
    ensures
        res@ == method_json(result@),
{
    let code = match &result.error_code {
        Some(e) => Json::string(e.as_str()),
        None => Json::Null,
    };
    let mut members: Vec<JsonMember> = Vec::new();
    members.push(member("passed", Json::Bool(result.passed)));
    members.push(member("durationMs", Json::count(result.duration_ms)));
    members.push(member("errorCode", code));
    let res = Json::object(members);
    assert(member_views(members@) =~= method_json(result@)->Object_0);
    res
}

/// What was found on one tunnel, as it is answered.
pub open spec fn tunnel_json(id: Seq<char>, results: Seq<(Seq<char>, MethodView)>) -> JsonView {
    JsonView::Object(
        seq![
            ("tunnelId"@, JsonView::Text(id)),
            (
                "methods"@,
                JsonView::Object(
                    results.map_values(|e: (Seq<char>, MethodView)| (e.0, method_json(e.1))),
                ),
            ),
        ],
    )
}

/// What was found on one tunnel, as it is answered.
pub fn tunnel_answer(id: &str, results: &MethodResults) -> (res: Json)
    ensures
        res@ == tunnel_json(id@, results@),
{
    let ghost made = results@.map_values(|e: (Seq<char>, MethodView)| (e.0, method_json(e.1)));
    let mut methods: Vec<JsonMember> = Vec::new();
    let mut i: usize = 0;
    assert(member_views(methods@) =~= made.take(0));
    while i < results.entries.len()
        invariant
            i <= results.entries@.len(),
            made == results@.map_values(|e: (Seq<char>, MethodView)| (e.0, method_json(e.1))),
            member_views(methods@) == made.take(i as int),
        decreases results.entries@.len() - i,
    {
        let ghost before = member_views(methods@);
        let m = member(results.entries[i].0.as_str(), make_method_json(&results.entries[i].1));
        assert(results@[i as int] == (
            results.entries@[i as int].0@,
            results.entries@[i as int].1@,
        ));
        methods.push(m);
        assert(member_views(methods@) =~= before.push((m.key@, m.value@)));
        i = i + 1;
        assert(member_views(methods@) =~= made.take(i as int));
    }
    assert(made.take(i as int) =~= made);
    let mut members: Vec<JsonMember> = Vec::new();
    members.push(member("tunnelId", Json::string(id)));
    members.push(member("methods", Json::object(methods)));
    let res = Json::object(members);
    assert(member_views(members@) =~= tunnel_json(id@, results@)->Object_0);
    res
}

/// What was found on all tunnels, as it is answered.
pub open spec fn probe_json(execution_id: Seq<char>, tunnels: Seq<JsonView>) -> JsonView {
    JsonView::Object(
        seq![
            ("executionId"@, JsonView::Text(execution_id)),
            ("results"@, JsonView::Array(tunnels)),
        ],
    )
}

/// What was found on all tunnels, as it is answered.
pub fn probe_answer(execution_id: &str, tunnels: Vec<Json>) -> (res: Json)
    ensures
        res@ == probe_json(execution_id@, item_views(tunnels@)),
{
    let mut members: Vec<JsonMember> = Vec::new();
    members.push(member("executionId", Json::string(execution_id)));
    members.push(member("results", Json::array(tunnels)));
    let res = Json::object(members);
    assert(member_views(members@) =~= probe_json(execution_id@, item_views(tunnels@))->Object_0);
    res
}

// ----- the whole of a probe -----

/// What carrying a method out gave: how many connections failed, where the method makes any and
/// could be run, and how long it took.
#[derive(Clone, Copy, Debug, PartialEq, Eq, Structural)]
pub struct MethodOutcome {
    pub loss: Option<u32>,
    pub duration_ms: u64,
}

/// What a method found on a tunnel.
pub open spec fn method_found(
    method: Seq<char>,
    tunnel: ProbeTunnel,
    timeout_ms: u64,
    outcome: MethodOutcome,
) -> MethodView {
    match method_plan(method, tunnel, timeout_ms) {
        PlanView::State(state) => state_view(state, outcome.duration_ms),
        PlanView::Connect(_, _, _) => connect_view(outcome.loss, outcome.duration_ms),
        PlanView::Unsupported => MethodView {
            passed: false,
            duration_ms: 0,
            error_code: Some("UNSUPPORTED_METHOD"@),
        },
    }
}

/// What the methods found on a tunnel, one after the other.
pub open spec fn methods_found(
    methods: Seq<Seq<char>>,
    tunnel: ProbeTunnel,
    timeout_ms: u64,
    outcomes: Seq<MethodOutcome>,
) -> Seq<(Seq<char>, MethodView)>
    decreases methods.len(),
{
    if methods.len() == 0 {
        Seq::empty()
    } else {
        with_result(
            methods_found(methods.drop_last(), tunnel, timeout_ms, outcomes),
            methods.last(),
            method_found(methods.last(), tunnel, timeout_ms, outcomes[methods.len() - 1]),
        )
    }
}

/// What was found on every tunnel, as it is answered.
pub open spec fn tunnels_found(params: ProbeParams, outcomes: Seq<Vec<MethodOutcome>>) -> Seq<JsonView> {
    Seq::new(
        params.tunnels@.len(),
        |i: int|
            tunnel_json(
                params.tunnels@[i].id@,
                methods_found(
                    views(params.methods@),
                    params.tunnels@[i],
                    params.timeout_ms,
                    outcomes[i]@,
                ),
            ),
    )
}

/// What a method found on a tunnel.
fn judge_method(method: &str, tunnel: &ProbeTunnel, timeout_ms: u64, outcome: MethodOutcome) -> (res:
    MethodResult)
    ensures
        res@ == method_found(method@, *tunnel, timeout_ms, outcome),
{
    match plan_method(method, tunnel, timeout_ms) {
        MethodPlan::State(state) => state_result(state, outcome.duration_ms),
        MethodPlan::Connect(_, _, _) => connect_result(outcome.loss, outcome.duration_ms),
        MethodPlan::Unsupported => unsupported_result(),
    }
}

/// What the methods found on a tunnel.
fn judge_tunnel(params: &ProbeParams, tunnel: &ProbeTunnel, outcomes: &Vec<MethodOutcome>) -> (res:
    MethodResults)
    requires
        outcomes@.len() == params.methods@.len(),
    ensures
        res@ == methods_found(views(params.methods@), *tunnel, params.timeout_ms, outcomes@),
{
    let ghost names = views(params.methods@);
    let mut results = MethodResults::new();
    let mut i: usize = 0;
    assert(names.take(0) =~= Seq::<Seq<char>>::empty());
    while i < params.methods.len()
        invariant
            i <= params.methods@.len(),
            outcomes@.len() == params.methods@.len(),
            names == views(params.methods@),
            names_distinct(results@),
            results@ == methods_found(
                names.take(i as int),
                *tunnel,
                params.timeout_ms,
                outcomes@,
            ),
        decreases params.methods@.len() - i,
    {
        assert(names.take(i + 1).drop_last() =~= names.take(i as int));
        assert(names.take(i + 1).last() == params.methods@[i as int]@);
        let method = params.methods[i].as_str();
        results.put(method, judge_method(method, tunnel, params.timeout_ms, outcomes[i]));
        i = i + 1;
    }
    assert(names.take(i as int) =~= names);
    results
}

/// The answer to a probe, given what carrying every method out on every tunnel gave.
pub fn handle(params: &ProbeParams, outcomes: &Vec<Vec<MethodOutcome>>) -> (res: Json)
    requires
        outcomes@.len() == params.tunnels@.len(),
        forall|i: int|
            0 <= i < outcomes@.len() ==> (#[trigger] outcomes@[i])@.len() == params.methods@.len(),
    ensures
        res@ == probe_json(params.execution_id@, tunnels_found(*params, outcomes@)),
{
    let ghost all = tunnels_found(*params, outcomes@);
    let mut tunnels: Vec<Json> = Vec::new();
    let mut i: usize = 0;
    assert(item_views(tunnels@) =~= all.take(0));
    while i < params.tunnels.len()
        invariant
            i <= params.tunnels@.len(),
            outcomes@.len() == params.tunnels@.len(),
            forall|i: int|
                0 <= i < outcomes@.len() ==> (#[trigger] outcomes@[i])@.len()
                    == params.methods@.len(),
            all == tunnels_found(*params, outcomes@),
            item_views(tunnels@) == all.take(i as int),
        decreases params.tunnels@.len() - i,
    {
        let tunnel = &params.tunnels[i];
        let results = judge_tunnel(params, tunnel, &outcomes[i]);
        let ghost before = item_views(tunnels@);
        let item = tunnel_answer(tunnel.id.as_str(), &results);
        tunnels.push(item);
        assert(item_views(tunnels@) =~= before.push(item@));
        i = i + 1;
        assert(item_views(tunnels@) =~= all.take(i as int));
    }
    assert(all.take(i as int) =~= all);
    probe_answer(params.execution_id.as_str(), tunnels)
}

// ----- what an answer tells -----

/// The answer of a method is what it found: whether it passed, how long it took, and its error code
/// where it has one.
pub proof fn law_method_answer_tells_what_was_found(found: MethodView)
    ensures
        method_json(found).flag("passed"@) == Some(found.passed),
        method_json(found).unsigned("durationMs"@) == Some(found.duration_ms),
        method_json(found).text("errorCode"@) == found.error_code,
        found.error_code is None ==> method_json(found).get("errorCode"@) == Some(JsonView::Null),
{
    reveal_strlit("passed");
    reveal_strlit("durationMs");
    reveal_strlit("errorCode");
    assert("passed"@.len() == 6);
    assert("durationMs"@.len() == 10);
    assert("errorCode"@.len() == 9);
    reveal_with_fuel(crate::json::member_from, 4);
}

/// The name of each method is told from those of the others.
proof fn lemma_method_names()
    ensures
        "tunnel_state"@ != "node_state"@,
        "tunnel_state"@ != "tcping"@,
        "node_state"@ != "tcping"@,
{
    reveal_strlit("tunnel_state");
    reveal_strlit("node_state");
    reveal_strlit("tcping");
    assert("tunnel_state"@.len() == 12);
    assert("node_state"@.len() == 10);
    assert("tcping"@.len() == 6);
}

/// What each method finds on a tunnel: `tunnel_state` goes by the state of the tunnel and `node_state`
/// by that of the node, which pass exactly where they are known to be good and have an error exactly
/// where they are not known; `tcping` passes exactly where its connection was made. Any other method
/// is not supported.
pub proof fn law_methods_go_by_their_own_state(
    method: Seq<char>,
    tunnel: ProbeTunnel,
    timeout_ms: u64,
    outcome: MethodOutcome,
)
    ensures
        ({
            let found = method_found(method, tunnel, timeout_ms, outcome);
            let known = method == "tunnel_state"@ || method == "node_state"@ || method == "tcping"@;
            &&& method == "tunnel_state"@ ==> {
                &&& found.passed <==> tunnel.tunnel_state == Some(true)
                &&& found.error_code is Some <==> tunnel.tunnel_state is None
            }
            &&& method == "node_state"@ ==> {
                &&& found.passed <==> tunnel.node_state == Some(true)
                &&& found.error_code is Some <==> tunnel.node_state is None
            }
            &&& method == "tunnel_state"@ || method == "node_state"@ ==> (
            found.error_code matches Some(e) ==> e == "UNAVAILABLE"@)
            &&& method == "tcping"@ ==> {
                &&& found.passed <==> outcome.loss == Some(0u32)
                &&& found.passed <==> found.error_code is None
                &&& outcome.loss is None ==> found.error_code == Some("EXEC_FAILED"@)
                &&& outcome.loss is Some && outcome.loss != Some(0u32) ==> found.error_code == Some(
                    "TIMEOUT"@,
                )
            }
            &&& known ==> found.duration_ms == outcome.duration_ms
            &&& !known ==> !found.passed && found.duration_ms == 0 && found.error_code == Some(
                "UNSUPPORTED_METHOD"@,
            )
        }),
{
    lemma_method_names();
}

/// A connection test goes to the host and the port of the node of the tunnel, and may take as many
/// whole seconds as cover the time that is allowed, one at least.
pub proof fn law_connection_goes_to_the_node(tunnel: ProbeTunnel, timeout_ms: u64)
    ensures
        method_plan("tcping"@, tunnel, timeout_ms) matches PlanView::Connect(host, port, secs) && host
            == tunnel.node_host@ && port == tunnel.node_port && secs >= 1 && secs * 1000
            >= timeout_ms && (timeout_ms > 0 ==> (secs - 1) * 1000 < timeout_ms),
        method_plan("tunnel_state"@, tunnel, timeout_ms) is State,
        method_plan("node_state"@, tunnel, timeout_ms) is State,
{
    lemma_method_names();
}

/// Whether a method is the last of its name among the methods.
pub open spec fn last_of_its_name(methods: Seq<Seq<char>>, i: int) -> bool {
    &&& 0 <= i < methods.len()
    &&& forall|j: int| i < j < methods.len() ==> #[trigger] methods[j] != methods[i]
}

/// What was found on a tunnel is what each method found, under its name.
proof fn lemma_methods_found(
    methods: Seq<Seq<char>>,
    tunnel: ProbeTunnel,
    timeout_ms: u64,
    outcomes: Seq<MethodOutcome>,
)
    requires
        outcomes.len() >= methods.len(),
    ensures
        ({
            let entries = methods_found(methods, tunnel, timeout_ms, outcomes);
            &&& names_distinct(entries)
            &&& entries.len() <= methods.len()
            &&& forall|k: int|
                0 <= k < entries.len() ==> methods.contains((#[trigger] entries[k]).0)
            &&& forall|i: int| #[trigger]
                last_of_its_name(methods, i) ==> entries.contains(
                    (methods[i], method_found(methods[i], tunnel, timeout_ms, outcomes[i])),
                )
        }),
    decreases methods.len(),
{
    let entries = methods_found(methods, tunnel, timeout_ms, outcomes);
    if methods.len() > 0 {
        let rest = methods.drop_last();
        let before = methods_found(rest, tunnel, timeout_ms, outcomes);
        let name = methods.last();
        let found = method_found(name, tunnel, timeout_ms, outcomes[methods.len() - 1]);
        lemma_methods_found(rest, tunnel, timeout_ms, outcomes);
        law_results_are_kept_by_name(before, name, found);
        lemma_position(before, name, 0);
        assert(methods[methods.len() - 1] == name);
        assert forall|k: int| 0 <= k < entries.len() implies methods.contains(
            (#[trigger] entries[k]).0,
        ) by {
            if entries[k].0 == name {
                assert(methods.contains(name));
            } else {
                assert(entries[k] == before[k]);
                let j = choose|j: int| 0 <= j < rest.len() && rest[j] == before[k].0;
                assert(methods[j] == before[k].0);
            }
        }
        assert forall|i: int| #[trigger] last_of_its_name(methods, i) implies entries.contains(
            (methods[i], method_found(methods[i], tunnel, timeout_ms, outcomes[i])),
        ) by {
            if i < methods.len() - 1 {
                assert(methods[methods.len() - 1] != methods[i]);
                assert(rest[i] == methods[i]);
                assert forall|j: int| i < j < rest.len() implies #[trigger] rest[j] != rest[i] by {
                    assert(rest[j] == methods[j]);
                }
                assert(last_of_its_name(rest, i));
                let entry = (methods[i], method_found(methods[i], tunnel, timeout_ms, outcomes[i]));
                let k = choose|k: int| 0 <= k < before.len() && before[k] == entry;
                assert(before[k].0 != name);
                assert(entries[k] == before[k]);
            }
        }
    }
}

/// The answer to a probe tells of every tunnel, in the order of the request and under its identity,
/// what each method that was asked for found on it, under the name of the method. Where a method is
/// asked for twice, it is the later finding that is told.
pub proof fn law_answer_tells_of_every_tunnel(
    params: ProbeParams,
    outcomes: Seq<Vec<MethodOutcome>>,
    t: int,
    i: int,
)
    requires
        outcomes.len() == params.tunnels@.len(),
        forall|k: int|
            0 <= k < outcomes.len() ==> (#[trigger] outcomes[k])@.len() == params.methods@.len(),
        0 <= t < params.tunnels@.len(),
        last_of_its_name(views(params.methods@), i),
    ensures
        ({
            let answer = probe_json(params.execution_id@, tunnels_found(params, outcomes));
            let method = params.methods@[i]@;
            let tunnel = params.tunnels@[t];
            &&& answer.text("executionId"@) == Some(params.execution_id@)
            &&& answer.get("results"@) matches Some(JsonView::Array(results)) && results.len()
                == params.tunnels@.len() && results[t].text("tunnelId"@) == Some(tunnel.id@) && (
            results[t].get("methods"@) matches Some(found) && found.get(method) == Some(
                method_json(method_found(method, tunnel, params.timeout_ms, outcomes[t]@[i])),
            ))
        }),
{
    reveal_strlit("executionId");
    reveal_strlit("results");
    reveal_strlit("tunnelId");
    reveal_strlit("methods");
    assert("executionId"@.len() == 11);
    assert("results"@.len() == 7);
    assert("tunnelId"@.len() == 8);
    assert("methods"@.len() == 7);
    assert("results"@[0] != "methods"@[0]);
    reveal_with_fuel(crate::json::member_from, 5);
    let methods = views(params.methods@);
    let tunnel = params.tunnels@[t];
    let method = methods[i];
    let view = method_found(method, tunnel, params.timeout_ms, outcomes[t]@[i]);
    assert(outcomes[t]@.len() == params.methods@.len());
    lemma_methods_found(methods, tunnel, params.timeout_ms, outcomes[t]@);
    let entries = methods_found(methods, tunnel, params.timeout_ms, outcomes[t]@);
    let shown = entries.map_values(|e: (Seq<char>, MethodView)| (e.0, method_json(e.1)));
    let k = choose|k: int| 0 <= k < entries.len() && entries[k] == (method, view);
    assert(shown[k] == (method, method_json(view)));
    assert forall|j: int| 0 <= j < k implies #[trigger] shown[j].0 != shown[k].0 by {
        assert(shown[j].0 == entries[j].0);
        assert(entries[j].0 != entries[k].0);
    }
    crate::json::lemma_member_at(shown, 0, k);
    let results = tunnels_found(params, outcomes);
    assert(results[t] == tunnel_json(tunnel.id@, entries));
    let answer = probe_json(params.execution_id@, results);
    assert(answer.get("results"@) == Some(JsonView::Array(results)));
    assert(results[t].get("methods"@) == Some(JsonView::Object(shown)));
}

/// A healthy node passes a probe by its state, and so does a healthy tunnel: in the answer to a probe,
/// the entry `node_state` of a tunnel has passed exactly where the request says that the node is good,
/// and has an error code exactly where it does not say anything. The same goes for `tunnel_state` and
/// the state of the tunnel.
pub proof fn law_answered_states_are_those_of_the_request(
    params: ProbeParams,
    outcomes: Seq<Vec<MethodOutcome>>,
    t: int,
    i: int,
)
    requires
        outcomes.len() == params.tunnels@.len(),
        forall|k: int|
            0 <= k < outcomes.len() ==> (#[trigger] outcomes[k])@.len() == params.methods@.len(),
        0 <= t < params.tunnels@.len(),
        last_of_its_name(views(params.methods@), i),
        params.methods@[i]@ == "node_state"@ || params.methods@[i]@ == "tunnel_state"@,
    ensures
        ({
            let answer = probe_json(params.execution_id@, tunnels_found(params, outcomes));
            let method = params.methods@[i]@;
            let state = if method == "node_state"@ {
                params.tunnels@[t].node_state
            } else {
                params.tunnels@[t].tunnel_state
            };
            let entry = answer.get("results"@)->0->Array_0[t].get("methods"@)->0.get(method)->0;
            &&& entry.flag("passed"@) == Some(state == Some(true))
            &&& entry.text("errorCode"@) is Some <==> state is None
        }),
{
    lemma_method_names();
    law_answer_tells_of_every_tunnel(params, outcomes, t, i);
    let method = params.methods@[i]@;
    let found = method_found(method, params.tunnels@[t], params.timeout_ms, outcomes[t]@[i]);
    law_methods_go_by_their_own_state(
        method,
        params.tunnels@[t],
        params.timeout_ms,
        outcomes[t]@[i],
    );
    law_method_answer_tells_what_was_found(found);
}

/// A probe is refused exactly where its parameters could not be read or its identity is blank.
pub proof fn law_probe_needs_an_identity(params: Result<ProbeParams, String>)
    ensures
        probe_error(params) is None <==> (params matches Ok(p) && exists|i: int|
            0 <= i < p.execution_id@.len() && !crate::text::is_space(
                #[trigger] p.execution_id@[i],
            )),
        probe_error(params) matches Some(e) ==> e.code == "INVALID_PARAMS"@,
{
    if let Ok(p) = params {
        crate::text::law_trimming_keeps_the_middle(p.execution_id@);
    }
}

} // verus!
