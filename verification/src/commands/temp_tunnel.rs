//! Creating and deleting the temporary tunnel of an end-to-end test.
//!
//! The service is asked for the node, then for a tunnel on one of its ports, and then for the
//! list of tunnels, which tells the identity of the new one. [`TunnelMaker`] decides what is asked
//! next and what the replies mean.
use super::low_u16;
use crate::http::{
    HttpReply, JsonReply, ReplyView, decode_fetch, fetch_view, fetched, is_success, success_code,
};
use crate::ident::random_bits;
use crate::json::{Json, JsonMember, JsonView, count_view, item_views, member, member_views};
use crate::text::{
    contains_text, decimal, has_text, lower, parse_port, parsed, push_decimal, same_text,
    signed_decimal, signed_decimal_text, split_at_char, split_on, to_lower, trim, trimmed,
};
use vstd::prelude::*;
use vstd::string::*;

verus! {

// ----- ports -----

/// How many ports are tried.
pub const MAX_PORT_ATTEMPTS: usize = 5;

/// The smaller of two ports.
pub open spec fn low_port(a: u16, b: u16) -> u16 {
    if a <= b {
        a
    } else {
        b
    }
}

/// The larger of two ports.
pub open spec fn high_port(a: u16, b: u16) -> u16 {
    if a <= b {
        b
    } else {
        a
    }
}

/// How many ports there are from one to the other.
pub open spec fn port_count(a: u16, b: u16) -> int {
    high_port(a, b) - low_port(a, b) + 1
}

/// The ports of a range from a starting point on, around the end of the range, as many as are
/// asked for and there are.
pub open spec fn ports_from(a: u16, b: u16, attempts: nat, seed: u128) -> Seq<u16> {
    let count = port_count(a, b);
    Seq::new(
        if attempts < count {
            attempts
        } else {
            count as nat
        },
        |i: int| (low_port(a, b) + (seed as int % count + i) % count) as u16,
    )
}

/// The ports of a range from the starting point that `seed` picks.
pub fn candidates_from(min_port: u16, max_port: u16, max_attempts: usize, seed: u128) -> (res: Vec<u16>)
    ensures
        res@ == ports_from(min_port, max_port, max_attempts as nat, seed),
{
    let start: u16 = if min_port <= max_port {
        min_port
    } else {
        max_port
    };
    let end: u16 = if min_port <= max_port {
        max_port
    } else {
        min_port
    };
    let count: u32 = (end - start) as u32 + 1;
    let limit: usize = if max_attempts < count as usize {
        max_attempts
    } else {
        count as usize
    };
    let offset: u32 = (seed % (count as u128)) as u32;
    let mut out: Vec<u16> = Vec::new();
    let mut i: usize = 0;
    while i < limit
        invariant
            i <= limit <= count,
            count == port_count(min_port, max_port),
            start == low_port(min_port, max_port),
            count <= 65536,
            start + count <= 65536,
            offset == seed as int % port_count(min_port, max_port),
            offset < count,
            out@.len() == i,
            forall|k: int|
                0 <= k < i ==> #[trigger] out@[k] == (start + (offset + k) % (count as int)) as u16,
        decreases limit - i,
    {
        let port: u32 = start as u32 + (offset + i as u32) % count;
        assert((offset + i) % (count as int) < count);
        out.push(port as u16);
        i = i + 1;
    }
    assert(out@ =~= ports_from(min_port, max_port, max_attempts as nat, seed));
    out
}

/// Distinct ports of a range, from a random starting point on.
pub fn remote_port_candidates(min_port: u16, max_port: u16, max_attempts: usize) -> (res: Vec<u16>)
    ensures
        exists|seed: u128| res@ == #[trigger] ports_from(min_port, max_port, max_attempts as nat, seed),
        res@.no_duplicates(),
        forall|i: int|
            0 <= i < res@.len() ==> low_port(min_port, max_port) <= #[trigger] res@[i] <= high_port(
                min_port,
                max_port,
            ),
{
    let seed: u128 = random_bits();
    let res = candidates_from(min_port, max_port, max_attempts, seed);
    proof {
        law_candidates_are_distinct(min_port, max_port, max_attempts as nat, seed);
    }
    res
}

/// The ports that are tried are different ones, all of them in the range, and as many as were
/// asked for unless the range is too small.
pub proof fn law_candidates_are_distinct(a: u16, b: u16, attempts: nat, seed: u128)
    ensures
        ports_from(a, b, attempts, seed).no_duplicates(),
        forall|i: int|
            0 <= i < ports_from(a, b, attempts, seed).len() ==> low_port(a, b) <= #[trigger] ports_from(
                a,
                b,
                attempts,
                seed,
            )[i] <= high_port(a, b),
        ports_from(a, b, attempts, seed).len() == if attempts < port_count(a, b) {
            attempts as int
        } else {
            port_count(a, b)
        },
{
    let count = port_count(a, b);
    let offset = seed as int % count;
    let ports = ports_from(a, b, attempts, seed);
    assert forall|i: int| 0 <= i < ports.len() implies low_port(a, b) <= #[trigger] ports[i] <= high_port(
        a,
        b,
    ) by {
        assert(0 <= (offset + i) % count < count);
    }
    assert forall|i: int, j: int| 0 <= i < ports.len() && 0 <= j < ports.len() && i != j implies ports[i]
        != ports[j] by {
        lemma_wrap(offset + i, count);
        lemma_wrap(offset + j, count);
    }
}

/// The remainder of a number below twice the divisor.
proof fn lemma_wrap(x: int, n: int)
    requires
        0 <= x < 2 * n,
    ensures
        x % n == if x < n {
            x
        } else {
            x - n
        },
{
    if x < n {
        vstd::arithmetic::div_mod::lemma_small_mod(x as nat, n as nat);
    } else {
        vstd::arithmetic::div_mod::lemma_mod_sub_multiples_vanish(x, n);
        vstd::arithmetic::div_mod::lemma_small_mod((x - n) as nat, n as nat);
    }
}

/// A port in words with blanks around it, or a default.
pub open spec fn port_or(s: Seq<char>, default: u16) -> u16 {
    match parsed(trimmed(s), u16::MAX as nat) {
        Some(v) => v as u16,
        None => default,
    }
}

/// The range of ports that a text such as `20000-40000` gives.
pub open spec fn port_range(s: Seq<char>) -> (u16, u16) {
    let parts = split_on(s, '-');
    if parts.len() == 2 {
        let start = port_or(parts[0], 20000);
        let end = port_or(parts[1], 40000);
        (low_port(start, end), high_port(start, end))
    } else {
        (20000, 40000)
    }
}

/// The range of ports that a text such as `20000-40000` gives. An end that is no port falls back
/// to the usual one, and so does a text that is no range.
pub fn parse_port_range(rport: &str) -> (res: (u16, u16))
    ensures
        res == port_range(rport@),
        res.0 <= res.1,
{
    let parts = split_at_char(rport, '-');
    assert(parts@.len() == split_on(rport@, '-').len());
    if parts.len() == 2 {
        assert(parts@[0]@ == split_on(rport@, '-')[0]);
        assert(parts@[1]@ == split_on(rport@, '-')[1]);
        let start: u16 = parse_port(trim(parts[0].as_str()).as_str()).unwrap_or(20000);
        let end: u16 = parse_port(trim(parts[1].as_str()).as_str()).unwrap_or(40000);
        return if start <= end {
            (start, end)
        } else {
            (end, start)
        };
    }
    (20000, 40000)
}

// ----- the node -----

/// The member `key` without blanks around it, where it is a string with something in it.
pub open spec fn filled(node: JsonView, key: Seq<char>) -> Option<Seq<char>> {
    match node.text(key) {
        Some(s) => if trimmed(s).len() > 0 {
            Some(trimmed(s))
        } else {
            None
        },
        None => None,
    }
}

/// The address of a node: the first of three members that is filled.
pub open spec fn node_address(node: JsonView) -> Option<Seq<char>> {
    if filled(node, "ip"@) is Some {
        filled(node, "ip"@)
    } else if filled(node, "realIp"@) is Some {
        filled(node, "realIp"@)
    } else {
        filled(node, "real_IP"@)
    }
}

/// The member `key` without blanks around it, where it is a string with something in it.
fn filled_member(node: &Json, key: &str) -> (res: Option<String>)
    ensures
        crate::text::opt_view(res) == filled(node@, key@),
{
    match node.text(key) {
        Some(s) => {
            let t = trim(s);
            if t.as_str().is_empty() {
                None
            } else {
                Some(t)
            }
        },
        None => None,
    }
}

/// The address of a node, from the members `ip`, `realIp` and `real_IP` in this order. Blank ones
/// are passed over.
pub fn parse_node_address(node_data: &Json) -> (res: Result<String, String>)
    ensures
        match res {
            Ok(a) => node_address(node_data@) == Some(a@),
            Err(e) => node_address(node_data@) is None && e@ == "节点信息中缺少可用地址"@,
        },
{
    if let Some(a) = filled_member(node_data, "ip") {
        return Ok(a);
    }
    if let Some(a) = filled_member(node_data, "realIp") {
        return Ok(a);
    }
    match filled_member(node_data, "real_IP") {
        Some(a) => Ok(a),
        None => Err("节点信息中缺少可用地址".to_owned()),
    }
}

/// What the creation needs to know of a node.
#[derive(Debug)]
pub struct NodeInfo {
    pub address: String,
    pub token: String,
    pub server_port: u16,
    pub min_port: u16,
    pub max_port: u16,
}

/// The model of [`NodeInfo`].
pub struct NodeView {
    pub address: Seq<char>,
    pub token: Seq<char>,
    pub server_port: u16,
    pub min_port: u16,
    pub max_port: u16,
}

impl View for NodeInfo {
    type V = NodeView;

    open spec fn view(&self) -> NodeView {
        NodeView {
            address: self.address@,
            token: self.token@,
            server_port: self.server_port,
            min_port: self.min_port,
            max_port: self.max_port,
        }
    }
}

/// The message of a reply of the service.
pub open spec fn reply_message(body: JsonView) -> Seq<char> {
    body.text_or("msg"@, "未知错误"@)
}

/// The description of a node: the member `data` where it is an object, else the whole body.
pub open spec fn node_data(body: JsonView) -> JsonView {
    match body.get("data"@) {
        Some(JsonView::Object(m)) => JsonView::Object(m),
        _ => body,
    }
}

/// The node that a description gives.
pub open spec fn node_view(data: JsonView) -> Result<NodeView, Seq<char>> {
    match node_address(data) {
        Some(address) => Ok(
            NodeView {
                address,
                token: data.text_or("nodetoken"@, ""@),
                server_port: (super::unsigned_or(data, "port"@, 7000) % 0x1_0000) as u16,
                min_port: port_range(data.text_or("rport"@, "20000-40000"@)).0,
                max_port: port_range(data.text_or("rport"@, "20000-40000"@)).1,
            },
        ),
        None => Err("节点信息中缺少可用地址"@),
    }
}

/// The node that the service describes, or the complaint.
pub open spec fn node_of(reply: Result<ReplyView, Seq<char>>) -> Result<NodeView, Seq<char>> {
    match reply {
        Err(e) => Err("获取节点信息失败: "@ + e),
        Ok(r) => match r.body {
            Err(e) => Err("解析节点信息失败: "@ + e),
            Ok(body) => if !success_code(r.code) {
                Err("获取节点信息失败（HTTP "@ + r.status + "）: "@ + reply_message(body))
            } else {
                match body.signed("code"@) {
                    Some(code) => if code != 200 {
                        Err(
                            "获取节点信息失败（业务码 "@ + signed_decimal(code as int) + "）: "@
                                + reply_message(body),
                        )
                    } else {
                        node_view(node_data(body))
                    },
                    None => node_view(node_data(body)),
                }
            },
        },
    }
}

/// The model of a result with a text as its error.
pub open spec fn node_result(res: Result<NodeInfo, String>) -> Result<NodeView, Seq<char>> {
    match res {
        Ok(n) => Ok(n@),
        Err(e) => Err(e@),
    }
}

/// The node that a description gives.
fn read_node(data: &Json) -> (res: Result<NodeInfo, String>)
    ensures
        node_result(res) == node_view(data@),
{
    let address = match parse_node_address(data) {
        Ok(a) => a,
        Err(e) => return Err(e),
    };
    let rport = data.text_or("rport", "20000-40000");
    let (min_port, max_port) = parse_port_range(rport.as_str());
    let port: u64 = data.unsigned("port").unwrap_or(7000);
    Ok(
        NodeInfo {
            address,
            token: data.text_or("nodetoken", ""),
            server_port: low_u16(port),
            min_port,
            max_port,
        },
    )
}

/// The node that the service describes. A failed request, a body that is no JSON, a status other
/// than success and a code other than 200 are errors.
pub fn parse_node_reply(reply: Result<JsonReply, String>) -> (res: Result<NodeInfo, String>)
    ensures
        node_result(res) == node_of(fetch_view(reply)),
{
    let r = match reply {
        Ok(r) => r,
        Err(e) => return Err("获取节点信息失败: ".to_owned().concat(e.as_str())),
    };
    let body = match r.body {
        Ok(b) => b,
        Err(e) => return Err("解析节点信息失败: ".to_owned().concat(e.as_str())),
    };
    if !is_success(r.code) {
        let msg = body.text_or("msg", "未知错误");
        return Err(
            "获取节点信息失败（HTTP ".to_owned().concat(r.status.as_str()).concat("）: ").concat(
                msg.as_str(),
            ),
        );
    }
    if let Some(code) = body.signed("code") {
        if code != 200 {
            let msg = body.text_or("msg", "未知错误");
            let number = signed_decimal_text(code);
            return Err(
                "获取节点信息失败（业务码 ".to_owned().concat(number.as_str()).concat("）: ").concat(
                    msg.as_str(),
                ),
            );
        }
    }
    match body.get("data") {
        Some(data) => {
            match data {
                Json::Object(_) => read_node(data),
                _ => read_node(&body),
            }
        },
        None => read_node(&body),
    }
}

// ----- the tunnel -----

/// Whether a message says that the remote port is taken.
pub open spec fn says_port_taken(message: Seq<char>) -> bool {
    ||| has_text(message, "远程端口"@) && (has_text(message, "占用"@) || has_text(message, "已被使用"@))
    ||| has_text(lower(message), "remote port"@) && (has_text(lower(message), "already in use"@)
        || has_text(lower(message), "occupied"@))
}

/// Whether a message says that the remote port is taken.
pub fn is_remote_port_conflict(message: &str) -> (res: bool)
    ensures
        res == says_port_taken(message@),
{
    let normalized = to_lower(message);
    contains_text(message, "远程端口") && (contains_text(message, "占用") || contains_text(
        message,
        "已被使用",
    )) || contains_text(normalized.as_str(), "remote port") && (contains_text(
        normalized.as_str(),
        "already in use",
    ) || contains_text(normalized.as_str(), "occupied"))
}

/// What a reply to the request for a tunnel means.
#[derive(Debug)]
pub enum AttemptVerdict {
    /// The tunnel is there.
    Created,
    /// The port is taken, another one may do.
    PortTaken,
    /// It failed for this reason.
    Failed(String),
}

/// The model of [`AttemptVerdict`].
pub enum VerdictView {
    Created,
    PortTaken,
    Failed(Seq<char>),
}

impl View for AttemptVerdict {
    type V = VerdictView;

    open spec fn view(&self) -> VerdictView {
        match self {
            AttemptVerdict::Created => VerdictView::Created,
            AttemptVerdict::PortTaken => VerdictView::PortTaken,
            AttemptVerdict::Failed(e) => VerdictView::Failed(e@),
        }
    }
}

/// What a reply to the request for a tunnel means.
pub open spec fn attempt_verdict(reply: Result<ReplyView, Seq<char>>) -> VerdictView {
    match reply {
        Err(e) => VerdictView::Failed("创建隧道失败: "@ + e),
        Ok(r) => match r.body {
            Err(e) => VerdictView::Failed("解析创建隧道响应失败: "@ + e),
            Ok(body) => if success_code(r.code) && body.unsigned("code"@) == Some(200u64) {
                VerdictView::Created
            } else {
                let error = "创建隧道失败: "@ + reply_message(body);
                if says_port_taken(error) {
                    VerdictView::PortTaken
                } else if success_code(r.code) {
                    VerdictView::Failed(error)
                } else {
                    VerdictView::Failed(error + "（HTTP "@ + r.status + "）"@)
                }
            },
        },
    }
}

/// What a reply to the request for a tunnel means. Only a message that says the port is taken
/// leaves room for another attempt.
pub fn judge_attempt(reply: Result<JsonReply, String>) -> (res: AttemptVerdict)
    ensures
        res@ == attempt_verdict(fetch_view(reply)),
{
    let r = match reply {
        Ok(r) => r,
        Err(e) => return AttemptVerdict::Failed("创建隧道失败: ".to_owned().concat(e.as_str())),
    };
    let body = match r.body {
        Ok(b) => b,
        Err(e) => {
            return AttemptVerdict::Failed("解析创建隧道响应失败: ".to_owned().concat(e.as_str()));
        },
    };
    let created = match body.unsigned("code") {
        Some(code) => code == 200,
        None => false,
    };
    if is_success(r.code) && created {
        return AttemptVerdict::Created;
    }
    let msg = body.text_or("msg", "未知错误");
    let error = "创建隧道失败: ".to_owned().concat(msg.as_str());
    if is_remote_port_conflict(error.as_str()) {
        AttemptVerdict::PortTaken
    } else if is_success(r.code) {
        AttemptVerdict::Failed(error)
    } else {
        AttemptVerdict::Failed(error.concat("（HTTP ").concat(r.status.as_str()).concat("）"))
    }
}

/// The name of the tunnel of an attempt: when it is asked for, its port, and the number of the
/// attempt.
pub open spec fn tunnel_name(now: u64, port: u16, attempt: nat) -> Seq<char> {
    "e2etest_"@ + decimal(now as nat) + "_"@ + decimal(port as nat) + "_"@ + decimal(attempt)
}

/// The name of the tunnel of an attempt.
fn make_tunnel_name(now: u64, port: u16, attempt: u64) -> (res: String)
    ensures
        res@ == tunnel_name(now, port, attempt as nat),
{
    let mut out = "e2etest_".to_owned();
    push_decimal(&mut out, now);
    out.append("_");
    push_decimal(&mut out, port as u64);
    out.append("_");
    push_decimal(&mut out, attempt);
    out
}

/// The body of the request for a tunnel.
pub open spec fn tunnel_request(
    name: Seq<char>,
    node_name: Seq<char>,
    local_port: u16,
    remote_port: u16,
) -> JsonView {
    JsonView::Object(
        seq![
            ("tunnelname"@, JsonView::Text(name)),
            ("node"@, JsonView::Text(node_name)),
            ("localip"@, JsonView::Text("127.0.0.1"@)),
            ("porttype"@, JsonView::Text("tcp"@)),
            ("localport"@, count_view(local_port as u64)),
            ("remoteport"@, count_view(remote_port as u64)),
            ("encryption"@, JsonView::Bool(false)),
            ("compression"@, JsonView::Bool(false)),
            ("extraparams"@, JsonView::Text(""@)),
        ],
    )
}

/// The body of the request for a tunnel.
fn make_tunnel_request(name: &str, node_name: &str, local_port: u16, remote_port: u16) -> (res: Json)
    ensures
        res@ == tunnel_request(name@, node_name@, local_port, remote_port),
{
    let mut members: Vec<JsonMember> = Vec::new();
    members.push(member("tunnelname", Json::string(name)));
    members.push(member("node", Json::string(node_name)));
    members.push(member("localip", Json::string("127.0.0.1")));
    members.push(member("porttype", Json::string("tcp")));
    members.push(member("localport", Json::count(local_port as u64)));
    members.push(member("remoteport", Json::count(remote_port as u64)));
    members.push(member("encryption", Json::Bool(false)));
    members.push(member("compression", Json::Bool(false)));
    members.push(member("extraparams", Json::string("")));
    let res = Json::object(members);
    assert(member_views(members@) =~= tunnel_request(
        name@,
        node_name@,
        local_port,
        remote_port,
    )->Object_0);
    res
}

/// The first tunnel of that name from position `i` of a list on.
pub open spec fn named_from(tunnels: Seq<JsonView>, name: Seq<char>, i: int) -> Option<JsonView>
    decreases tunnels.len() - i,
{
    if i < 0 || i >= tunnels.len() {
        None
    } else if tunnels[i].text("name"@) == Some(name) {
        Some(tunnels[i])
    } else {
        named_from(tunnels, name, i + 1)
    }
}

/// The port that a tunnel has on its node: the member `dorp` where it is a port in words, else the
/// number `remote_port`, else the port that was asked for.
pub open spec fn listed_port(tunnel: JsonView, asked: u16) -> u16 {
    let dorp = match tunnel.text("dorp"@) {
        Some(s) => parsed(s, u16::MAX as nat),
        None => None,
    };
    match dorp {
        Some(v) => v as u16,
        None => match tunnel.unsigned("remote_port"@) {
            Some(v) => (v % 0x1_0000) as u16,
            None => asked,
        },
    }
}

/// The list of tunnels in a body: the member `data` where there is one, else the body itself.
pub open spec fn listed_tunnels(body: JsonView) -> Option<Seq<JsonView>> {
    match body.get("data"@) {
        Some(data) => data.items(),
        None => body.items(),
    }
}

/// The identity and the port of the tunnel of that name in the list of the service.
pub open spec fn tunnel_of(
    reply: Result<ReplyView, Seq<char>>,
    name: Seq<char>,
    asked: u16,
) -> Result<(i64, u16), Seq<char>> {
    match reply {
        Err(e) => Err("获取隧道列表失败: "@ + e),
        Ok(r) => match r.body {
            Err(e) => Err("解析隧道列表失败: "@ + e),
            Ok(body) => match listed_tunnels(body) {
                None => Err("隧道列表格式错误"@),
                Some(tunnels) => match named_from(tunnels, name, 0) {
                    None => Err("未找到新创建的隧道"@),
                    Some(tunnel) => match tunnel.signed("id"@) {
                        None => Err("隧道ID缺失"@),
                        Some(id) => Ok((id, listed_port(tunnel, asked))),
                    },
                },
            },
        },
    }
}

/// The model of a result with a text as its error.
pub open spec fn listing_result(res: Result<(i64, u16), String>) -> Result<(i64, u16), Seq<char>> {
    match res {
        Ok(v) => Ok(v),
        Err(e) => Err(e@),
    }
}

/// The port that a tunnel has on its node.
fn read_listed_port(tunnel: &Json, asked: u16) -> (res: u16)
    ensures
        res == listed_port(tunnel@, asked),
{
    if let Some(s) = tunnel.text("dorp") {
        if let Some(port) = parse_port(s) {
            return port;
        }
    }
    match tunnel.unsigned("remote_port") {
        Some(v) => low_u16(v),
        None => asked,
    }
}

/// The first tunnel of that name in a list.
fn find_named<'a>(tunnels: &'a Vec<Json>, name: &str) -> (res: Option<&'a Json>)
    ensures
        match res {
            Some(t) => named_from(item_views(tunnels@), name@, 0) == Some(t@),
            None => named_from(item_views(tunnels@), name@, 0) is None,
        },
{
    let mut i: usize = 0;
    while i < tunnels.len()
        invariant
            i <= tunnels@.len(),
            named_from(item_views(tunnels@), name@, 0) == named_from(
                item_views(tunnels@),
                name@,
                i as int,
            ),
        decreases tunnels@.len() - i,
    {
        assert(item_views(tunnels@)[i as int] == tunnels@[i as int]@);
        if let Some(n) = tunnels[i].text("name") {
            if same_text(n, name) {
                return Some(&tunnels[i]);
            }
        }
        i = i + 1;
    }
    None
}

/// The identity and the port of the tunnel of that name in the list of the service.
pub fn find_tunnel(reply: Result<JsonReply, String>, name: &str, asked: u16) -> (res: Result<
    (i64, u16),
    String,
>)
    ensures
        listing_result(res) == tunnel_of(fetch_view(reply), name@, asked),
{
    let r = match reply {
        Ok(r) => r,
        Err(e) => return Err("获取隧道列表失败: ".to_owned().concat(e.as_str())),
    };
    let body = match r.body {
        Ok(b) => b,
        Err(e) => return Err("解析隧道列表失败: ".to_owned().concat(e.as_str())),
    };
    let listed = match body.get("data") {
        Some(data) => data.items(),
        None => body.items(),
    };
    let tunnels = match listed {
        Some(t) => t,
        None => return Err("隧道列表格式错误".to_owned()),
    };
    let tunnel = match find_named(tunnels, name) {
        Some(t) => t,
        None => return Err("未找到新创建的隧道".to_owned()),
    };
    match tunnel.signed("id") {
        Some(id) => Ok((id, read_listed_port(tunnel, asked))),
        None => Err("隧道ID缺失".to_owned()),
    }
}

// ----- creation step by step -----

/// A temporary tunnel that is there.
#[derive(Debug)]
pub struct TempTunnel {
    pub tunnel_id: i64,
    pub node_ip: String,
    pub remote_port: u16,
    pub node_token: String,
    pub server_port: u16,
    pub tunnel_name: String,
}

/// The model of [`TempTunnel`].
pub struct TempTunnelView {
    pub tunnel_id: i64,
    pub node_ip: Seq<char>,
    pub remote_port: u16,
    pub node_token: Seq<char>,
    pub server_port: u16,
    pub tunnel_name: Seq<char>,
}

impl View for TempTunnel {
    type V = TempTunnelView;

    open spec fn view(&self) -> TempTunnelView {
        TempTunnelView {
            tunnel_id: self.tunnel_id,
            node_ip: self.node_ip@,
            remote_port: self.remote_port,
            node_token: self.node_token@,
            server_port: self.server_port,
            tunnel_name: self.tunnel_name@,
        }
    }
}

/// How far the creation has come.
#[derive(Debug)]
pub enum TunnelPhase {
    /// The node has been asked for.
    Node,
    /// A tunnel on one of the ports has been asked for.
    Create { node: NodeInfo, ports: Vec<u16>, attempt: usize, name: String },
    /// The tunnel is there, the list has been asked for.
    List { node: NodeInfo, port: u16, name: String },
    /// It is over.
    Over,
}

/// The model of [`TunnelPhase`].
pub enum PhaseView {
    Node,
    Create { node: NodeView, ports: Seq<u16>, attempt: nat, name: Seq<char> },
    List { node: NodeView, port: u16, name: Seq<char> },
    Over,
}

impl View for TunnelPhase {
    type V = PhaseView;

    open spec fn view(&self) -> PhaseView {
        match self {
            TunnelPhase::Node => PhaseView::Node,
            TunnelPhase::Create { node, ports, attempt, name } => PhaseView::Create {
                node: node@,
                ports: ports@,
                attempt: *attempt as nat,
                name: name@,
            },
            TunnelPhase::List { node, port, name } => PhaseView::List {
                node: node@,
                port: *port,
                name: name@,
            },
            TunnelPhase::Over => PhaseView::Over,
        }
    }
}

/// The creation of a temporary tunnel.
#[derive(Debug)]
pub struct TunnelMaker {
    pub node_name: String,
    pub local_port: u16,
    pub phase: TunnelPhase,
}

/// The model of [`TunnelMaker`].
pub struct MakerView {
    pub node_name: Seq<char>,
    pub local_port: u16,
    pub phase: PhaseView,
}

impl View for TunnelMaker {
    type V = MakerView;

    open spec fn view(&self) -> MakerView {
        MakerView {
            node_name: self.node_name@,
            local_port: self.local_port,
            phase: self.phase@,
        }
    }
}

/// What is to be done next.
#[derive(Debug)]
pub enum TunnelAction {
    /// Ask for this address.
    Get(String),
    /// Send this to the address.
    Post(String, Json),
    /// The tunnel is there.
    Done(TempTunnel),
    /// There is no tunnel, for this reason.
    Fail(String),
}

/// The model of [`TunnelAction`].
pub enum ActionView {
    Get(Seq<char>),
    Post(Seq<char>, JsonView),
    Done(TempTunnelView),
    Fail(Seq<char>),
}

impl View for TunnelAction {
    type V = ActionView;

    open spec fn view(&self) -> ActionView {
        match self {
            TunnelAction::Get(url) => ActionView::Get(url@),
            TunnelAction::Post(url, body) => ActionView::Post(url@, body@),
            TunnelAction::Done(t) => ActionView::Done(t@),
            TunnelAction::Fail(e) => ActionView::Fail(e@),
        }
    }
}

impl MakerView {
    /// The ports that are tried are at most five different ones in the range of the node, and the
    /// attempt under way is one of them.
    pub open spec fn wf(self) -> bool {
        match self.phase {
            PhaseView::Create { node, ports, attempt, name } => {
                &&& ports.no_duplicates()
                &&& attempt < ports.len() <= MAX_PORT_ATTEMPTS
                &&& forall|i: int|
                    0 <= i < ports.len() ==> low_port(node.min_port, node.max_port)
                        <= #[trigger] ports[i] <= high_port(node.min_port, node.max_port)
            },
            _ => true,
        }
    }

    /// The creation in another phase.
    pub open spec fn to(self, phase: PhaseView) -> MakerView {
        MakerView { phase, ..self }
    }

    /// The creation is over.
    pub open spec fn over(self) -> MakerView {
        self.to(PhaseView::Over)
    }

    /// The request for a tunnel on the next of the ports.
    pub open spec fn attempted(
        self,
        node: NodeView,
        ports: Seq<u16>,
        attempt: nat,
        now: u64,
    ) -> (MakerView, ActionView) {
        let name = tunnel_name(now, ports[attempt as int], attempt + 1);
        (
            self.to(PhaseView::Create { node, ports, attempt, name }),
            ActionView::Post(
                "https://cf-v2.uapis.cn/create_tunnel"@,
                tunnel_request(name, self.node_name, self.local_port, ports[attempt as int]),
            ),
        )
    }

    /// What a reply leads to: the next phase and what is to be done. Nothing is to be done once the
    /// creation is over.
    pub open spec fn stepped(
        self,
        reply: Result<ReplyView, Seq<char>>,
        now: u64,
        seed: u128,
    ) -> (MakerView, ActionView) {
        match self.phase {
            PhaseView::Node => match node_of(reply) {
                Err(e) => (self.over(), ActionView::Fail(e)),
                Ok(node) => self.attempted(
                    node,
                    ports_from(node.min_port, node.max_port, MAX_PORT_ATTEMPTS as nat, seed),
                    0,
                    now,
                ),
            },
            PhaseView::Create { node, ports, attempt, name } => match attempt_verdict(reply) {
                VerdictView::Created => (
                    self.to(PhaseView::List { node, port: ports[attempt as int], name }),
                    ActionView::Get("https://cf-v2.uapis.cn/tunnel"@),
                ),
                VerdictView::Failed(e) => (self.over(), ActionView::Fail(e)),
                VerdictView::PortTaken => if attempt + 1 < ports.len() {
                    self.attempted(node, ports, attempt + 1, now)
                } else {
                    (
                        self.over(),
                        ActionView::Fail(
                            "创建隧道失败: 连续 "@ + decimal(ports.len()) + " 个远程端口均已被占用"@,
                        ),
                    )
                },
            },
            PhaseView::List { node, port, name } => match tunnel_of(reply, name, port) {
                Err(e) => (self.over(), ActionView::Fail(e)),
                Ok((tunnel_id, remote_port)) => (
                    self.over(),
                    ActionView::Done(
                        TempTunnelView {
                            tunnel_id,
                            node_ip: node.address,
                            remote_port,
                            node_token: node.token,
                            server_port: node.server_port,
                            tunnel_name: name,
                        },
                    ),
                ),
            },
            PhaseView::Over => (self, ActionView::Fail(Seq::empty())),
        }
    }
}

/// A creation that has not begun to get replies.
pub open spec fn new_maker(node_name: Seq<char>, local_port: u16) -> MakerView {
    MakerView { node_name, local_port, phase: PhaseView::Node }
}

/// Begins to create a tunnel from a port of the node of that name to a local port: the node is
/// asked for first.
pub fn create_temp_tunnel(node_name: &str, local_port: u16) -> (res: (TunnelMaker, TunnelAction))
    ensures
        res.0@ == new_maker(node_name@, local_port),
        res.0@.wf(),
        res.1@ == ActionView::Get("https://cf-v2.uapis.cn/nodeinfo?node="@ + node_name@),
{
    let url = "https://cf-v2.uapis.cn/nodeinfo?node=".to_owned().concat(node_name);
    let maker = TunnelMaker {
        node_name: node_name.to_owned(),
        local_port,
        phase: TunnelPhase::Node,
    };
    (maker, TunnelAction::Get(url))
}

impl TunnelMaker {
    /// Asks for a tunnel on the next of the ports.
    fn attempt(self, node: NodeInfo, ports: Vec<u16>, attempt: usize, now: u64) -> (res: (
        TunnelMaker,
        TunnelAction,
    ))
        requires
            attempt < ports@.len() <= MAX_PORT_ATTEMPTS,
        ensures
            (res.0@, res.1@) == self@.attempted(node@, ports@, attempt as nat, now),
    {
        let port: u16 = ports[attempt];
        let name = make_tunnel_name(now, port, (attempt + 1) as u64);
        let body = make_tunnel_request(name.as_str(), self.node_name.as_str(), self.local_port, port);
        let maker = TunnelMaker {
            node_name: self.node_name,
            local_port: self.local_port,
            phase: TunnelPhase::Create { node, ports, attempt, name },
        };
        (maker, TunnelAction::Post("https://cf-v2.uapis.cn/create_tunnel".to_owned(), body))
    }

    /// The creation is over.
    fn close(self) -> (res: TunnelMaker)
        ensures
            res@ == self@.over(),
    {
        TunnelMaker {
            node_name: self.node_name,
            local_port: self.local_port,
            phase: TunnelPhase::Over,
        }
    }

    /// What a reply leads to, with the starting point among the ports of the node that `seed`
    /// picks.
    pub fn step(self, reply: Result<JsonReply, String>, now: u64, seed: u128) -> (res: (
        TunnelMaker,
        TunnelAction,
    ))
        requires
            self@.wf(),
            !(self@.phase is Over),
        ensures
            (res.0@, res.1@) == self@.stepped(fetch_view(reply), now, seed),
            res.0@.wf(),
    {
        proof {
            law_step_keeps_wf(self@, fetch_view(reply), now, seed);
        }
        let TunnelMaker { node_name, local_port, phase } = self;
        let bare = TunnelMaker { node_name, local_port, phase: TunnelPhase::Over };
        match phase {
            TunnelPhase::Node => match parse_node_reply(reply) {
                Ok(node) => {
                    let ports = candidates_from(
                        node.min_port,
                        node.max_port,
                        MAX_PORT_ATTEMPTS,
                        seed,
                    );
                    bare.attempt(node, ports, 0, now)
                },
                Err(e) => (bare.close(), TunnelAction::Fail(e)),
            },
            TunnelPhase::Create { node, ports, attempt, name } => match judge_attempt(reply) {
                AttemptVerdict::Created => {
                    let port: u16 = ports[attempt];
                    let maker = TunnelMaker {
                        node_name: bare.node_name,
                        local_port: bare.local_port,
                        phase: TunnelPhase::List { node, port, name },
                    };
                    (maker, TunnelAction::Get("https://cf-v2.uapis.cn/tunnel".to_owned()))
                },
                AttemptVerdict::Failed(e) => (bare.close(), TunnelAction::Fail(e)),
                AttemptVerdict::PortTaken => {
                    if attempt + 1 < ports.len() {
                        bare.attempt(node, ports, attempt + 1, now)
                    } else {
                        let mut e = "创建隧道失败: 连续 ".to_owned();
                        push_decimal(&mut e, ports.len() as u64);
                        e.append(" 个远程端口均已被占用");
                        (bare.close(), TunnelAction::Fail(e))
                    }
                },
            },
            TunnelPhase::List { node, port, name } => match find_tunnel(reply, name.as_str(), port) {
                Ok((tunnel_id, remote_port)) => {
                    let tunnel = TempTunnel {
                        tunnel_id,
                        node_ip: node.address,
                        remote_port,
                        node_token: node.token,
                        server_port: node.server_port,
                        tunnel_name: name,
                    };
                    (bare.close(), TunnelAction::Done(tunnel))
                },
                Err(e) => (bare.close(), TunnelAction::Fail(e)),
            },
            TunnelPhase::Over => (bare, TunnelAction::Fail(String::new())),
        }
    }

    /// Whether the creation is over.
    pub fn is_over(&self) -> (res: bool)
        ensures
            res == (self@.phase is Over),
    {
        match self.phase {
            TunnelPhase::Over => true,
            _ => false,
        }
    }

    /// What a reply leads to. The starting point among the ports of the node is random.
    pub fn advance(self, reply: Result<HttpReply, String>, now: u64) -> (res: (
        TunnelMaker,
        TunnelAction,
    ))
        requires
            self@.wf(),
            !(self@.phase is Over),
        ensures
            exists|seed: u128| (res.0@, res.1@) == #[trigger] self@.stepped(fetched(reply), now, seed),
            res.0@.wf(),
    {
        let seed: u128 = random_bits();
        self.step(decode_fetch(reply), now, seed)
    }
}

/// Every step keeps the ports distinct, few and in the range of the node.
pub proof fn law_step_keeps_wf(
    maker: MakerView,
    reply: Result<ReplyView, Seq<char>>,
    now: u64,
    seed: u128,
)
    requires
        maker.wf(),
    ensures
        maker.stepped(reply, now, seed).0.wf(),
{
    if let Ok(node) = node_of(reply) {
        law_candidates_are_distinct(
            node.min_port,
            node.max_port,
            MAX_PORT_ATTEMPTS as nat,
            seed,
        );
    }
}

/// A further tunnel is asked for only after a message that the port is taken, and then on a port
/// that was not tried before. Every other failure ends the creation.
pub proof fn law_only_conflicts_are_retried(
    maker: MakerView,
    reply: Result<ReplyView, Seq<char>>,
    now: u64,
    seed: u128,
)
    requires
        maker.wf(),
        maker.phase is Create,
    ensures
        maker.stepped(reply, now, seed).0.phase is Create <==> (attempt_verdict(reply)
            is PortTaken && maker.phase->attempt + 1 < maker.phase->ports.len()),
        maker.stepped(reply, now, seed).1 is Post ==> {
            let next = maker.stepped(reply, now, seed).0;
            &&& next.phase is Create
            &&& next.phase->ports == maker.phase->ports
            &&& next.phase->attempt == maker.phase->attempt + 1
            &&& forall|k: int|
                0 <= k <= maker.phase->attempt ==> #[trigger] maker.phase->ports[k]
                    != next.phase->ports[next.phase->attempt as int]
        },
{
}

/// One reply with the time at which it is looked at and the random number that is at hand.
pub struct TunnelEvent {
    pub reply: Result<ReplyView, Seq<char>>,
    pub now: u64,
    pub seed: u128,
}

/// How many tunnels are asked for while a creation goes through a series of replies.
pub open spec fn requests_made(maker: MakerView, events: Seq<TunnelEvent>) -> nat
    decreases events.len(),
{
    if events.len() == 0 {
        0
    } else {
        let (next, action) = maker.stepped(events[0].reply, events[0].now, events[0].seed);
        requests_made(next, events.drop_first()) + if action is Post {
            1nat
        } else {
            0nat
        }
    }
}

/// How many more tunnels a creation may ask for.
spec fn requests_left(maker: MakerView) -> nat {
    match maker.phase {
        PhaseView::Node => MAX_PORT_ATTEMPTS as nat,
        PhaseView::Create { ports, attempt, .. } => (ports.len() - attempt - 1) as nat,
        _ => 0,
    }
}

/// No creation asks for more than it may.
proof fn lemma_requests_bounded(maker: MakerView, events: Seq<TunnelEvent>)
    requires
        maker.wf(),
    ensures
        requests_made(maker, events) <= requests_left(maker),
    decreases events.len(),
{
    if events.len() > 0 {
        let e = events[0];
        let (next, action) = maker.stepped(e.reply, e.now, e.seed);
        law_step_keeps_wf(maker, e.reply, e.now, e.seed);
        lemma_requests_bounded(next, events.drop_first());
    }
}

/// Whatever the service replies, at most five tunnels are asked for.
pub proof fn law_at_most_five_requests(
    node_name: Seq<char>,
    local_port: u16,
    events: Seq<TunnelEvent>,
)
    ensures
        requests_made(new_maker(node_name, local_port), events) <= 5,
{
    lemma_requests_bounded(new_maker(node_name, local_port), events);
}

// ----- deletion -----

/// The address that deletes a tunnel.
pub fn delete_tunnel_url(tunnel_id: i64) -> (res: String)
    ensures
        res@ == "https://cf-v2.uapis.cn/delete_tunnel?tunnelid="@ + signed_decimal(tunnel_id as int),
{
    let id = signed_decimal_text(tunnel_id);
    "https://cf-v2.uapis.cn/delete_tunnel?tunnelid=".to_owned().concat(id.as_str())
}

/// The complaint of a reply to the request to delete a tunnel, if it has one.
pub open spec fn deletion_error(reply: Result<ReplyView, Seq<char>>) -> Option<Seq<char>> {
    match reply {
        Err(e) => Some("删除隧道请求失败: "@ + e),
        Ok(r) => match r.body {
            Err(e) => Some("解析删除隧道响应失败: "@ + e),
            Ok(body) => if body.unsigned("code"@) == Some(200u64) {
                None
            } else {
                Some("删除隧道失败: "@ + reply_message(body))
            },
        },
    }
}

/// Whether the tunnel is deleted: a reply with the code 200 says so, whatever its status.
pub fn judge_deletion(reply: Result<JsonReply, String>) -> (res: Result<(), String>)
    ensures
        match res {
            Ok(_) => deletion_error(fetch_view(reply)) is None,
            Err(e) => deletion_error(fetch_view(reply)) == Some(e@),
        },
{
    let r = match reply {
        Ok(r) => r,
        Err(e) => return Err("删除隧道请求失败: ".to_owned().concat(e.as_str())),
    };
    let body = match r.body {
        Ok(b) => b,
        Err(e) => return Err("解析删除隧道响应失败: ".to_owned().concat(e.as_str())),
    };
    let deleted = match body.unsigned("code") {
        Some(code) => code == 200,
        None => false,
    };
    if deleted {
        Ok(())
    } else {
        let msg = body.text_or("msg", "未知错误");
        Err("删除隧道失败: ".to_owned().concat(msg.as_str()))
    }
}

/// Whether the tunnel is deleted, from the reply as it came in.
pub fn delete_tunnel(reply: Result<HttpReply, String>) -> (res: Result<(), String>)
    ensures
        match res {
            Ok(_) => deletion_error(fetched(reply)) is None,
            Err(e) => deletion_error(fetched(reply)) == Some(e@),
        },
{
    judge_deletion(decode_fetch(reply))
}

// ----- what the replies mean -----

/// A range in words, two ports with a hyphen between them, is read as those two ports, the smaller one
/// first. A text without a hyphen is the usual range.
pub proof fn law_range_is_read_as_its_ports(a: u16, b: u16, text: Seq<char>)
    ensures
        port_range(decimal(a as nat) + seq!['-'] + decimal(b as nat)) == if a <= b {
            (a, b)
        } else {
            (b, a)
        },
        !text.contains('-') ==> port_range(text) == (20000u16, 40000u16),
        port_range(text).0 <= port_range(text).1,
{
    let (x, y) = (decimal(a as nat), decimal(b as nat));
    lemma_number_is_one_word(a as nat);
    lemma_number_is_one_word(b as nat);
    crate::text::law_one_piece(x, '-');
    crate::text::law_one_piece(y, '-');
    crate::text::law_split_at_separator(x, '-', y);
    assert(x + seq!['-'] + y =~= x.push('-') + y);
    assert(seq![x] + seq![y] =~= seq![x, y]);
    crate::text::law_decimal_round_trip(a as nat, u16::MAX as nat);
    crate::text::law_decimal_round_trip(b as nat, u16::MAX as nat);
    crate::text::law_trimmed_stays(x);
    crate::text::law_trimmed_stays(y);
    if !text.contains('-') {
        crate::text::law_one_piece(text, '-');
    }
}

/// A number in words holds neither white space nor a hyphen nor an underscore.
proof fn lemma_number_is_one_word(n: nat)
    ensures
        decimal(n).len() > 0,
        !decimal(n).contains('-'),
        !decimal(n).contains('_'),
        !crate::text::is_space(decimal(n)[0]),
        !crate::text::is_space(decimal(n).last()),
{
    crate::text::law_decimal_denotes(n);
    let s = decimal(n);
    assert forall|i: int| 0 <= i < s.len() implies crate::text::is_digit(#[trigger] s[i]) by {}
    assert(crate::text::is_digit(s[0]));
    assert(crate::text::is_digit(s[s.len() - 1]));
}

/// The address of a node is the first of `ip`, `realIp` and `real_IP` that holds more than white
/// space, without the white space around it.
pub proof fn law_node_address_is_the_first_that_is_filled(node: JsonView)
    ensures
        ({
            let given = |key: Seq<char>|
                node.text(key) is Some && exists|i: int|
                    0 <= i < node.text(key)->0.len() && !crate::text::is_space(
                        #[trigger] node.text(key)->0[i],
                    );
            &&& given("ip"@) ==> node_address(node) == Some(trimmed(node.text("ip"@)->0))
            &&& !given("ip"@) && given("realIp"@) ==> node_address(node) == Some(
                trimmed(node.text("realIp"@)->0),
            )
            &&& !given("ip"@) && !given("realIp"@) && given("real_IP"@) ==> node_address(node)
                == Some(trimmed(node.text("real_IP"@)->0))
            &&& !given("ip"@) && !given("realIp"@) && !given("real_IP"@) ==> node_address(node)
                is None
        }),
{
    if let Some(s) = node.text("ip"@) {
        crate::text::law_trimming_keeps_the_middle(s);
    }
    if let Some(s) = node.text("realIp"@) {
        crate::text::law_trimming_keeps_the_middle(s);
    }
    if let Some(s) = node.text("real_IP"@) {
        crate::text::law_trimming_keeps_the_middle(s);
    }
}

/// What is known of a node is what its description says, member by member: its address, its token, the
/// port that frpc connects to, 7000 where none is given, and the range of its ports.
pub proof fn law_node_is_as_described(data: JsonView)
    ensures
        node_view(data) is Ok <==> node_address(data) is Some,
        node_view(data) matches Ok(node) ==> {
            &&& node_address(data) == Some(node.address)
            &&& match data.text("nodetoken"@) {
                Some(t) => node.token == t,
                None => node.token.len() == 0,
            }
            &&& match data.unsigned("port"@) {
                Some(p) => p <= u16::MAX ==> node.server_port == p,
                None => node.server_port == 7000,
            }
            &&& match data.text("rport"@) {
                Some(r) => (node.min_port, node.max_port) == port_range(r),
                None => node.min_port == 20000 && node.max_port == 40000,
            }
        },
{
    reveal_strlit("");
    reveal_strlit("20000-40000");
    crate::text::law_decimal_is_positional(2, 0);
    crate::text::law_decimal_is_positional(20, 0);
    crate::text::law_decimal_is_positional(200, 0);
    crate::text::law_decimal_is_positional(2000, 0);
    crate::text::law_decimal_is_positional(4, 0);
    crate::text::law_decimal_is_positional(40, 0);
    crate::text::law_decimal_is_positional(400, 0);
    crate::text::law_decimal_is_positional(4000, 0);
    crate::text::law_decimal_is_positional(0, 2);
    crate::text::law_decimal_is_positional(0, 4);
    assert(decimal(20000) =~= seq!['2', '0', '0', '0', '0']);
    assert(decimal(40000) =~= seq!['4', '0', '0', '0', '0']);
    law_range_is_read_as_its_ports(20000, 40000, Seq::empty());
    assert(decimal(20000) + seq!['-'] + decimal(40000) =~= "20000-40000"@);
}

/// A node is read exactly from a reply that came, with success, with a body that can be read and
/// either no code or the code 200, and with an address in its description: the object under `data`, or
/// else the body itself.
pub proof fn law_node_is_read_from_a_good_reply(reply: Result<ReplyView, Seq<char>>)
    ensures
        ({
            let good = reply matches Ok(r) && 200 <= r.code && r.code <= 299 && (
            r.body matches Ok(body) && (body.signed("code"@) is None || body.signed("code"@) == Some(
                200i64,
            )));
            &&& node_of(reply) is Ok ==> good
            &&& good ==> {
                let body = reply->Ok_0.body->Ok_0;
                let data = match body.get("data"@) {
                    Some(JsonView::Object(m)) => JsonView::Object(m),
                    _ => body,
                };
                node_of(reply) == node_view(data)
            }
        }),
{
}

/// A message about the remote port tells a conflict where it says that the port is taken, in Chinese,
/// or in English in any case of its letters. One that does not speak of the remote port tells none.
pub proof fn law_conflicts_are_recognised(message: Seq<char>)
    ensures
        has_text(message, "远程端口"@) && (has_text(message, "占用"@) || has_text(
            message,
            "已被使用"@,
        )) ==> says_port_taken(message),
        has_text(lower(message), "remote port"@) && (has_text(lower(message), "already in use"@)
            || has_text(lower(message), "occupied"@)) ==> says_port_taken(message),
        !has_text(message, "远程端口"@) && !has_text(lower(message), "remote port"@)
            ==> !says_port_taken(message),
        !has_text(message, "占用"@) && !has_text(message, "已被使用"@) && !has_text(
            lower(message),
            "already in use"@,
        ) && !has_text(lower(message), "occupied"@) ==> !says_port_taken(message),
{
}

/// A tunnel was created exactly where the reply has a status of success and the code 200. Otherwise it
/// failed, and only a message that the port is taken leaves room for another attempt.
pub proof fn law_tunnel_was_created_or_not(reply: Result<ReplyView, Seq<char>>)
    ensures
        ({
            let verdict = attempt_verdict(reply);
            let message = "创建隧道失败: "@ + reply->Ok_0.body->Ok_0.text_or("msg"@, "未知错误"@);
            &&& verdict is Created <==> (reply matches Ok(r) && 200 <= r.code && r.code <= 299 && (
            r.body matches Ok(body) && body.unsigned("code"@) == Some(200u64)))
            &&& verdict is PortTaken <==> reply is Ok && reply->Ok_0.body is Ok && !(verdict
                is Created) && says_port_taken(message)
            &&& reply matches Err(e) ==> (verdict matches VerdictView::Failed(m)
                && crate::text::finishes_with(m, e))
            &&& reply matches Ok(r) ==> (r.body matches Err(e) ==> (
            verdict matches VerdictView::Failed(m) && crate::text::finishes_with(m, e)))
        }),
{
    if let Err(e) = reply {
        let m = "创建隧道失败: "@ + e;
        assert(m.subrange(m.len() - e.len(), m.len() as int) =~= e);
    }
    if let Ok(r) = reply {
        if let Err(e) = r.body {
            let m = "解析创建隧道响应失败: "@ + e;
            assert(m.subrange(m.len() - e.len(), m.len() as int) =~= e);
        }
    }
}

/// A tunnel is asked for with its name, the node, the local port and the remote port, each in its
/// place: TCP from the remote port to the local one on this machine.
pub proof fn law_request_asks_for_the_tunnel(
    name: Seq<char>,
    node_name: Seq<char>,
    local_port: u16,
    remote_port: u16,
)
    ensures
        ({
            let j = tunnel_request(name, node_name, local_port, remote_port);
            &&& j.text("tunnelname"@) == Some(name)
            &&& j.text("node"@) == Some(node_name)
            &&& j.unsigned("localport"@) == Some(local_port as u64)
            &&& j.unsigned("remoteport"@) == Some(remote_port as u64)
            &&& j.text("localip"@) == Some("127.0.0.1"@)
            &&& j.text("porttype"@) == Some("tcp"@)
            &&& j.flag("encryption"@) == Some(false)
            &&& j.flag("compression"@) == Some(false)
        }),
{
    reveal_strlit("tunnelname");
    reveal_strlit("node");
    reveal_strlit("localip");
    reveal_strlit("porttype");
    reveal_strlit("localport");
    reveal_strlit("remoteport");
    reveal_strlit("encryption");
    reveal_strlit("compression");
    reveal_strlit("extraparams");
    assert("tunnelname"@.len() == 10);
    assert("node"@.len() == 4);
    assert("localip"@.len() == 7);
    assert("porttype"@.len() == 8);
    assert("localport"@.len() == 9);
    assert("remoteport"@.len() == 10);
    assert("encryption"@.len() == 10);
    assert("compression"@.len() == 11);
    assert("extraparams"@.len() == 11);
    assert("tunnelname"@[0] != "remoteport"@[0]);
    assert("tunnelname"@[0] != "encryption"@[0]);
    assert("remoteport"@[0] != "encryption"@[0]);
    assert("compression"@[0] != "extraparams"@[0]);
    reveal_with_fuel(crate::json::member_from, 10);
}

/// Tunnels that are asked for at different times, on different ports or in different attempts have
/// different names.
pub proof fn law_tunnel_names_differ(
    now: u64,
    port: u16,
    attempt: nat,
    other_now: u64,
    other_port: u16,
    other_attempt: nat,
)
    requires
        tunnel_name(now, port, attempt) == tunnel_name(other_now, other_port, other_attempt),
    ensures
        now == other_now && port == other_port && attempt == other_attempt,
{
    lemma_name_comes_apart(now, port, attempt);
    lemma_name_comes_apart(other_now, other_port, other_attempt);
    let a = split_on(tunnel_name(now, port, attempt), '_');
    let b = split_on(tunnel_name(other_now, other_port, other_attempt), '_');
    assert(a[1] == b[1] && a[2] == b[2] && a[3] == b[3]);
    crate::text::law_decimal_denotes(now as nat);
    crate::text::law_decimal_denotes(other_now as nat);
    crate::text::law_decimal_denotes(port as nat);
    crate::text::law_decimal_denotes(other_port as nat);
    crate::text::law_decimal_denotes(attempt);
    crate::text::law_decimal_denotes(other_attempt);
}

/// The name of a tunnel is made of four parts.
proof fn lemma_name_comes_apart(now: u64, port: u16, attempt: nat)
    ensures
        split_on(tunnel_name(now, port, attempt), '_') == seq![
            "e2etest"@,
            decimal(now as nat),
            decimal(port as nat),
            decimal(attempt),
        ],
{
    reveal_strlit("e2etest");
    reveal_strlit("e2etest_");
    reveal_strlit("_");
    let (x, y, z) = (decimal(now as nat), decimal(port as nat), decimal(attempt));
    lemma_number_is_one_word(now as nat);
    lemma_number_is_one_word(port as nat);
    lemma_number_is_one_word(attempt);
    crate::text::law_one_piece("e2etest"@, '_');
    crate::text::law_one_piece(x, '_');
    crate::text::law_one_piece(y, '_');
    crate::text::law_one_piece(z, '_');
    crate::text::law_split_at_separator(y, '_', z);
    crate::text::law_split_at_separator(x, '_', y.push('_') + z);
    crate::text::law_split_at_separator("e2etest"@, '_', x.push('_') + (y.push('_') + z));
    assert(tunnel_name(now, port, attempt) =~= "e2etest"@.push('_') + (x.push('_') + (y.push('_')
        + z)));
    assert(seq!["e2etest"@] + (seq![x] + (seq![y] + seq![z])) =~= seq!["e2etest"@, x, y, z]);
}

/// The tunnel that is found in a list is the first of that name.
proof fn lemma_named_from(tunnels: Seq<JsonView>, name: Seq<char>, i: int)
    requires
        0 <= i <= tunnels.len(),
    ensures
        match named_from(tunnels, name, i) {
            Some(t) => exists|k: int|
                #![trigger tunnels[k]]
                i <= k < tunnels.len() && tunnels[k] == t && t.text("name"@) == Some(name)
                    && forall|j: int|
                    i <= j < k ==> (#[trigger] tunnels[j]).text("name"@) != Some(name),
            None => forall|j: int|
                i <= j < tunnels.len() ==> (#[trigger] tunnels[j]).text("name"@) != Some(name),
        },
    decreases tunnels.len() - i,
{
    if i < tunnels.len() {
        if tunnels[i].text("name"@) == Some(name) {
            assert(tunnels[i] == tunnels[i]);
        } else {
            lemma_named_from(tunnels, name, i + 1);
        }
    }
}

/// The identity that is taken from the list is that of the first tunnel with the name that was asked
/// for, and the port is the one that the list gives it, in words or as a number, else the one that was
/// asked for.
pub proof fn law_tunnel_is_found_by_its_name(
    reply: Result<ReplyView, Seq<char>>,
    name: Seq<char>,
    asked: u16,
)
    ensures
        tunnel_of(reply, name, asked) matches Ok((id, port)) ==> {
            &&& reply matches Ok(r) && r.body is Ok
            &&& listed_tunnels(reply->Ok_0.body->Ok_0) matches Some(tunnels) && exists|k: int|
                #![trigger tunnels[k]]
                0 <= k < tunnels.len() && tunnels[k].text("name"@) == Some(name)
                    && tunnels[k].signed("id"@) == Some(id) && port == listed_port(
                    tunnels[k],
                    asked,
                ) && forall|j: int|
                    0 <= j < k ==> (#[trigger] tunnels[j]).text("name"@) != Some(name)
        },
{
    if tunnel_of(reply, name, asked) is Ok {
        let tunnels = listed_tunnels(reply->Ok_0.body->Ok_0)->0;
        lemma_named_from(tunnels, name, 0);
    }
}

/// The port of a listed tunnel: what `dorp` says in words comes first, then the number `remote_port`,
/// then the port that was asked for.
pub proof fn law_listed_port_comes_first(tunnel: JsonView, asked: u16, port: u16)
    ensures
        tunnel.text("dorp"@) == Some(decimal(port as nat)) ==> listed_port(tunnel, asked) == port,
        tunnel.text("dorp"@) is None && tunnel.unsigned("remote_port"@) == Some(port as u64)
            ==> listed_port(tunnel, asked) == port,
        tunnel.text("dorp"@) is None && tunnel.unsigned("remote_port"@) is None ==> listed_port(
            tunnel,
            asked,
        ) == asked,
{
    crate::text::law_decimal_round_trip(port as nat, u16::MAX as nat);
}

/// The list is the array under `data`, or the body itself where there is no such member.
pub proof fn law_list_is_under_data(body: JsonView)
    ensures
        body.get("data"@) matches Some(JsonView::Array(items)) ==> listed_tunnels(body) == Some(items),
        body.get("data"@) is None ==> (body matches JsonView::Array(items) ==> listed_tunnels(body)
            == Some(items)),
{
}

/// From the reply about the node on, a creation holds on to the node, and every tunnel that is asked
/// for is asked for on that node and leads to the local port, on a port of the range of the node, under
/// the name that the creation remembers.
pub proof fn law_creation_asks_for_the_right_tunnel(
    maker: MakerView,
    reply: Result<ReplyView, Seq<char>>,
    now: u64,
    seed: u128,
)
    requires
        maker.wf(),
        maker.stepped(reply, now, seed).1 is Post,
    ensures
        ({
            let (next, action) = maker.stepped(reply, now, seed);
            &&& next.node_name == maker.node_name
            &&& next.local_port == maker.local_port
            &&& next.phase matches PhaseView::Create { node, ports, attempt, name } && {
                &&& maker.phase is Node ==> node_of(reply) == Ok::<NodeView, Seq<char>>(node)
                    && attempt == 0
                &&& maker.phase is Create ==> node == maker.phase->Create_node
                &&& action matches ActionView::Post(url, j) && {
                    &&& url == "https://cf-v2.uapis.cn/create_tunnel"@
                    &&& j.text("tunnelname"@) == Some(name)
                    &&& j.text("node"@) == Some(maker.node_name)
                    &&& j.unsigned("localport"@) == Some(maker.local_port as u64)
                    &&& j.unsigned("remoteport"@) == Some(ports[attempt as int] as u64)
                    &&& low_port(node.min_port, node.max_port) <= ports[attempt as int]
                    &&& ports[attempt as int] <= high_port(node.min_port, node.max_port)
                }
            }
        }),
{
    law_step_keeps_wf(maker, reply, now, seed);
    let next = maker.stepped(reply, now, seed).0;
    if let PhaseView::Create { node, ports, attempt, name } = next.phase {
        law_request_asks_for_the_tunnel(
            name,
            maker.node_name,
            maker.local_port,
            ports[attempt as int],
        );
    }
}

/// Once the service says that the tunnel was created, the list is asked for, and the name, the port and
/// the node of the attempt are remembered.
pub proof fn law_created_tunnel_is_looked_up(
    maker: MakerView,
    reply: Result<ReplyView, Seq<char>>,
    now: u64,
    seed: u128,
)
    requires
        maker.wf(),
        maker.phase is Create,
        attempt_verdict(reply) is Created,
    ensures
        ({
            let (next, action) = maker.stepped(reply, now, seed);
            &&& action == ActionView::Get("https://cf-v2.uapis.cn/tunnel"@)
            &&& next.phase matches PhaseView::List { node, port, name } && node
                == maker.phase->Create_node && name == maker.phase->Create_name && port
                == maker.phase->ports[maker.phase->attempt as int]
        }),
{
}

/// The tunnel that comes out is the one that was asked for: its identity and its port on the node are
/// those of the list under its name, and its address, its token and the port that frpc connects to are
/// those of the node.
pub proof fn law_made_tunnel_is_the_one_asked_for(
    maker: MakerView,
    reply: Result<ReplyView, Seq<char>>,
    now: u64,
    seed: u128,
)
    requires
        maker.phase is List,
    ensures
        ({
            let action = maker.stepped(reply, now, seed).1;
            let (node, port, name) = (
                maker.phase->List_node,
                maker.phase->port,
                maker.phase->List_name,
            );
            &&& tunnel_of(reply, name, port) is Ok <==> action is Done
            &&& action matches ActionView::Done(t) ==> {
                &&& t.tunnel_name == name
                &&& t.node_ip == node.address
                &&& t.node_token == node.token
                &&& t.server_port == node.server_port
                &&& tunnel_of(reply, name, port) == Ok::<(i64, u16), Seq<char>>(
                    (t.tunnel_id, t.remote_port),
                )
            }
        }),
{
}

/// A tunnel counts as deleted exactly where the reply came, its body can be read and it has the code
/// 200.
pub proof fn law_tunnel_was_deleted_or_not(reply: Result<ReplyView, Seq<char>>)
    ensures
        deletion_error(reply) is None <==> (reply matches Ok(r) && (r.body matches Ok(body)
            && body.unsigned("code"@) == Some(200u64))),
        deletion_error(reply) matches Some(m) ==> (reply matches Err(e)
            ==> crate::text::finishes_with(m, e)),
{
    if let Err(e) = reply {
        let m = "删除隧道请求失败: "@ + e;
        assert(m.subrange(m.len() - e.len(), m.len() as int) =~= e);
    }
}

} // verus!
