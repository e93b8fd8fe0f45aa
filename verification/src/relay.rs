//! The connection to the backend, one for each account.
//!
//! Times are nanoseconds on a clock that does not go back.
use crate::commands::{
    Command, CommandContext, CommandResult, MAX_RUN_ENTRIES, RegistryView, RpcError, RpcErrorView,
    RunRegistry, answer_view, cancel_run, law_run_names_differ, law_runs_are_independent, run_name,
};
use crate::commands::daemon_config::{TokenTaken, TokenTakenView, token_outcome};
use crate::config::AccountConfig;
use crate::ident::{fresh_uuid, is_uuid_v4};
use crate::json::{Json, JsonMember, JsonView, json_of_text, member, member_views};
use crate::telemetry::{UsageEvent, event_at};
use crate::text::{
    decimal, decimal_text, finishes_with, is_digit, law_decimal_denotes, opt_view, same_text, trim,
    trimmed,
};
use vstd::prelude::*;
use vstd::string::*;
use vstd::utf8::{encode_utf8, encode_utf8_decode_utf8};

verus! {

/// How often the backend is pinged, in nanoseconds.
pub const HEARTBEAT_INTERVAL: u64 = 30_000_000_000;

/// How long the backend may stay silent, in nanoseconds.
pub const HEARTBEAT_TIMEOUT: u64 = 60_000_000_000;

/// How long a broken connection waits before it is made anew, in nanoseconds.
pub const RECONNECT_DELAY: u64 = 3_000_000_000;

// ----- this machine -----

/// What is there, or a default.
pub open spec fn or_default(o: Option<Seq<char>>, default: Seq<char>) -> Seq<char> {
    match o {
        Some(s) => s,
        None => default,
    }
}

/// What is there, or a default.
fn take_or(o: Option<String>, default: &str) -> (res: String)
    ensures
        res@ == or_default(opt_view(o), default@),
{
    match o {
        Some(s) => s,
        None => default.to_owned(),
    }
}

/// The operating system and the name of this machine in words, with what stands in where they are
/// not known.
pub fn collect_sys_info(name: Option<String>, version: Option<String>, host: Option<String>) -> (res: (
    String,
    String,
))
    ensures
        res.0@ == trimmed(
            or_default(opt_view(name), "Linux"@) + " "@ + or_default(opt_view(version), ""@),
        ),
        res.1@ == or_default(opt_view(host), "unknown"@),
{
    let os_name = take_or(name, "Linux");
    let os_version = take_or(version, "");
    let os_info = os_name.concat(" ").concat(os_version.as_str());
    (trim(os_info.as_str()), take_or(host, "unknown"))
}

// ----- the address of the connection -----

/// Whether a byte stands for itself in an address.
pub open spec fn is_plain(b: u8) -> bool {
    ||| 48 <= b <= 57
    ||| 65 <= b <= 90
    ||| 97 <= b <= 122
    ||| b == 45
    ||| b == 46
    ||| b == 95
    ||| b == 126
}

/// A hexadecimal digit in upper case.
pub open spec fn upper_hex(d: int) -> char {
    if d < 10 {
        (48 + d) as char
    } else {
        (55 + d) as char
    }
}

/// Bytes as they stand in an address: letters, digits and `-._~` for themselves, every other byte
/// as `%` with two hexadecimal digits.
pub open spec fn percent_encoded(data: Seq<u8>) -> Seq<char>
    decreases data.len(),
{
    if data.len() == 0 {
        Seq::empty()
    } else {
        let before = percent_encoded(data.drop_last());
        let b = data.last();
        if is_plain(b) {
            before.push(b as char)
        } else {
            before.push('%').push(upper_hex(b as int / 16)).push(upper_hex(b as int % 16))
        }
    }
}

/// `urlencoding::encode`: the bytes of the text as they stand in an address.
#[verifier::external_body]
fn url_encode(s: &str) -> (res: String)
    ensures
        res@ == percent_encoded(encode_utf8(s@)),
{
    urlencoding::encode(s).into_owned()
}

/// What this daemon can do, as it tells the backend.
pub open spec fn capabilities() -> Seq<char> {
    "{\"dns_failover_probe\":1,\"full_chain_test\":2}"@
}

/// The address of the connection of an account. It carries the name under which the device is shown,
/// for when the backend sees the device for the first time.
pub open spec fn connection_url(
    backend_url: Seq<char>,
    proxy_token: Seq<char>,
    device_id: Seq<char>,
    device_name: Seq<char>,
    os_info: Seq<char>,
    hostname: Seq<char>,
) -> Seq<char> {
    backend_url + "/api/devices/ws?token="@ + percent_encoded(encode_utf8(proxy_token))
        + "&deviceId="@ + device_id + "&deviceName="@ + percent_encoded(encode_utf8(device_name))
        + "&deviceType=daemon&osInfo="@ + percent_encoded(encode_utf8(os_info)) + "&hostname="@
        + percent_encoded(encode_utf8(hostname)) + "&interconnect=1&capabilities="@
        + percent_encoded(encode_utf8(capabilities()))
}

/// The address of the connection of an account.
pub fn ws_url(
    backend_url: &str,
    proxy_token: &str,
    device_id: &str,
    device_name: &str,
    os_info: &str,
    hostname: &str,
) -> (res: String)
    ensures
        res@ == connection_url(
            backend_url@,
            proxy_token@,
            device_id@,
            device_name@,
            os_info@,
            hostname@,
        ),
{
    let token = url_encode(proxy_token);
    let name = url_encode(device_name);
    let os = url_encode(os_info);
    let host = url_encode(hostname);
    let able = url_encode("{\"dns_failover_probe\":1,\"full_chain_test\":2}");
    backend_url.to_owned().concat("/api/devices/ws?token=").concat(token.as_str()).concat(
        "&deviceId=",
    ).concat(device_id).concat("&deviceName=").concat(name.as_str()).concat(
        "&deviceType=daemon&osInfo=",
    ).concat(os.as_str()).concat("&hostname=").concat(host.as_str()).concat(
        "&interconnect=1&capabilities=",
    ).concat(able.as_str())
}

/// Whether a character can stand in an encoded value.
pub open spec fn is_url_char(c: char) -> bool {
    ||| '0' <= c <= '9'
    ||| 'A' <= c <= 'Z'
    ||| 'a' <= c <= 'z'
    ||| c == '-'
    ||| c == '.'
    ||| c == '_'
    ||| c == '~'
    ||| c == '%'
}

/// An encoded value holds nothing that has a meaning in an address: no `&`, no `=`, no `#`, no blank.
/// So no token and no name can add a parameter to the address or cut it off.
pub proof fn law_encoded_values_stay_values(data: Seq<u8>)
    ensures
        forall|i: int|
            0 <= i < percent_encoded(data).len() ==> is_url_char(#[trigger] percent_encoded(data)[i]),
    decreases data.len(),
{
    if data.len() > 0 {
        law_encoded_values_stay_values(data.drop_last());
        let before = percent_encoded(data.drop_last());
        let all = percent_encoded(data);
        let b = data.last();
        assert forall|i: int| 0 <= i < all.len() implies is_url_char(#[trigger] all[i]) by {
            if i < before.len() {
                assert(all[i] == before[i]);
            } else if is_plain(b) {
                assert(all[i] == b as char);
            } else {
                assert(i == before.len() || i == before.len() + 1 || i == before.len() + 2);
            }
        }
    }
}

/// One byte as it stands in an address.
spec fn encoded_byte(b: u8) -> Seq<char> {
    if is_plain(b) {
        seq![b as char]
    } else {
        seq!['%', upper_hex(b as int / 16), upper_hex(b as int % 16)]
    }
}

/// The first byte stands first.
proof fn lemma_first_byte_first(data: Seq<u8>)
    requires
        data.len() > 0,
    ensures
        percent_encoded(data) == encoded_byte(data[0]) + percent_encoded(data.drop_first()),
    decreases data.len(),
{
    let front = data.drop_last();
    let rest = data.drop_first();
    if data.len() == 1 {
        assert(front =~= Seq::<u8>::empty());
        assert(rest =~= Seq::<u8>::empty());
        assert(percent_encoded(data) =~= encoded_byte(data[0]) + percent_encoded(rest));
    } else {
        lemma_first_byte_first(front);
        assert(front.drop_first() =~= rest.drop_last());
        assert(percent_encoded(data) =~= encoded_byte(data[0]) + percent_encoded(rest));
    }
}

/// Different bytes stand differently in an address.
proof fn lemma_encoding_tells_bytes_apart(a: Seq<u8>, b: Seq<u8>)
    requires
        percent_encoded(a) == percent_encoded(b),
    ensures
        a == b,
    decreases a.len(),
{
    if a.len() > 0 {
        lemma_first_byte_first(a);
        assert(percent_encoded(a).len() >= encoded_byte(a[0]).len());
    }
    if b.len() > 0 {
        lemma_first_byte_first(b);
        assert(percent_encoded(b).len() >= encoded_byte(b[0]).len());
    }
    if a.len() == 0 || b.len() == 0 {
        assert(a =~= b);
    } else {
        let whole = percent_encoded(a);
        let (x, y) = (encoded_byte(a[0]), encoded_byte(b[0]));
        let (r, t) = (percent_encoded(a.drop_first()), percent_encoded(b.drop_first()));
        assert(whole[0] == x[0]);
        assert(whole[0] == y[0]);
        assert(is_plain(a[0]) <==> x[0] != '%');
        assert(is_plain(b[0]) <==> y[0] != '%');
        if !is_plain(a[0]) {
            assert(whole[1] == x[1] && whole[2] == x[2]);
            assert(whole[1] == y[1] && whole[2] == y[2]);
        }
        assert(a[0] == b[0]);
        assert(r =~= whole.skip(x.len() as int));
        assert(t =~= whole.skip(x.len() as int));
        lemma_encoding_tells_bytes_apart(a.drop_first(), b.drop_first());
        assert(a =~= seq![a[0]] + a.drop_first());
        assert(b =~= seq![b[0]] + b.drop_first());
    }
}

/// The address tells the name of the device: connections that differ in nothing but the name have
/// different addresses.
pub proof fn law_address_tells_the_device_name(
    backend_url: Seq<char>,
    proxy_token: Seq<char>,
    device_id: Seq<char>,
    device_name: Seq<char>,
    other_name: Seq<char>,
    os_info: Seq<char>,
    hostname: Seq<char>,
)
    requires
        connection_url(backend_url, proxy_token, device_id, device_name, os_info, hostname)
            == connection_url(backend_url, proxy_token, device_id, other_name, os_info, hostname),
    ensures
        device_name == other_name,
{
    let head = backend_url + "/api/devices/ws?token="@ + percent_encoded(encode_utf8(proxy_token))
        + "&deviceId="@ + device_id + "&deviceName="@;
    let tail = "&deviceType=daemon&osInfo="@ + percent_encoded(encode_utf8(os_info))
        + "&hostname="@ + percent_encoded(encode_utf8(hostname)) + "&interconnect=1&capabilities="@
        + percent_encoded(encode_utf8(capabilities()));
    let x = percent_encoded(encode_utf8(device_name));
    let y = percent_encoded(encode_utf8(other_name));
    let url = connection_url(backend_url, proxy_token, device_id, device_name, os_info, hostname);
    let same = connection_url(backend_url, proxy_token, device_id, other_name, os_info, hostname);
    assert(url =~= head + x + tail);
    assert(same =~= head + y + tail);
    assert(x.len() == y.len());
    assert(x =~= url.subrange(head.len() as int, (head.len() + x.len()) as int));
    assert(y =~= url.subrange(head.len() as int, (head.len() + x.len()) as int));
    lemma_encoding_tells_bytes_apart(encode_utf8(device_name), encode_utf8(other_name));
    encode_utf8_decode_utf8(device_name);
    encode_utf8_decode_utf8(other_name);
}

// ----- messages -----

/// A request of a client.
#[derive(Debug)]
pub struct RpcRequest {
    pub request_id: String,
    pub command: String,
    pub params: Json,
    pub user_id: Option<i64>,
}

/// The model of [`RpcRequest`].
pub struct RequestView {
    pub request_id: Seq<char>,
    pub command: Seq<char>,
    pub params: JsonView,
    pub user_id: Option<i64>,
}

impl View for RpcRequest {
    type V = RequestView;

    open spec fn view(&self) -> RequestView {
        RequestView {
            request_id: self.request_id@,
            command: self.command@,
            params: self.params@,
            user_id: self.user_id,
        }
    }
}

/// What a message says.
#[derive(Debug)]
pub enum Incoming {
    /// The backend is there.
    Pong,
    /// A device came or went.
    Presence { kind: String, device: String },
    /// A client asks for a command.
    Request(RpcRequest),
    /// A run is to stop; it has no name where nothing is said.
    Cancel(String),
    /// There is a new version.
    Update(String),
    /// Something else.
    Unknown(String),
}

/// The model of [`Incoming`].
pub enum IncomingView {
    Pong,
    Presence { kind: Seq<char>, device: Seq<char> },
    Request(RequestView),
    Cancel(Seq<char>),
    Update(Seq<char>),
    Unknown(Seq<char>),
}

impl View for Incoming {
    type V = IncomingView;

    open spec fn view(&self) -> IncomingView {
        match self {
            Incoming::Pong => IncomingView::Pong,
            Incoming::Presence { kind, device } => IncomingView::Presence {
                kind: kind@,
                device: device@,
            },
            Incoming::Request(r) => IncomingView::Request(r@),
            Incoming::Cancel(run) => IncomingView::Cancel(run@),
            Incoming::Update(v) => IncomingView::Update(v@),
            Incoming::Unknown(t) => IncomingView::Unknown(t@),
        }
    }
}

/// The request in a message.
pub open spec fn request_of(msg: JsonView) -> RequestView {
    RequestView {
        request_id: msg.text_or("requestId"@, ""@),
        command: msg.text_or("command"@, ""@),
        params: match msg.get("params"@) {
            Some(p) => p,
            None => JsonView::Null,
        },
        user_id: msg.signed("userId"@),
    }
}

/// What a message says.
pub open spec fn incoming(msg: JsonView) -> IncomingView {
    let kind = msg.text_or("type"@, ""@);
    if kind == "pong"@ {
        IncomingView::Pong
    } else if kind == "device_online"@ || kind == "device_offline"@ {
        IncomingView::Presence { kind, device: msg.text_or("deviceName"@, "unknown"@) }
    } else if kind == "rpc_request"@ {
        IncomingView::Request(request_of(msg))
    } else if kind == "rpc_cancel"@ {
        IncomingView::Cancel(msg.text_or("runId"@, ""@))
    } else if kind == "update_available"@ {
        IncomingView::Update(msg.text_or("version"@, "unknown"@))
    } else {
        IncomingView::Unknown(kind)
    }
}

/// The request in a message.
pub fn handle_rpc_request(msg: &Json) -> (res: RpcRequest)
    ensures
        res@ == request_of(msg@),
{
    RpcRequest {
        request_id: msg.text_or("requestId", ""),
        command: msg.text_or("command", ""),
        params: match msg.get("params") {
            Some(p) => p.duplicate(),
            None => Json::Null,
        },
        user_id: msg.signed("userId"),
    }
}

/// What a message says.
pub fn read_message(msg: &Json) -> (res: Incoming)
    ensures
        res@ == incoming(msg@),
{
    let kind = msg.text_or("type", "");
    let k = kind.as_str();
    if same_text(k, "pong") {
        Incoming::Pong
    } else if same_text(k, "device_online") || same_text(k, "device_offline") {
        let device = msg.text_or("deviceName", "unknown");
        Incoming::Presence { kind, device }
    } else if same_text(k, "rpc_request") {
        Incoming::Request(handle_rpc_request(msg))
    } else if same_text(k, "rpc_cancel") {
        Incoming::Cancel(msg.text_or("runId", ""))
    } else if same_text(k, "update_available") {
        Incoming::Update(msg.text_or("version", "unknown"))
    } else {
        Incoming::Unknown(kind)
    }
}

/// What a text from the backend says, or what is wrong with it.
pub fn handle_message(text: &str) -> (res: Result<Incoming, String>)
    ensures
        match res {
            Ok(i) => json_of_text(text@) matches Ok(j) && i@ == incoming(j),
            Err(e) => json_of_text(text@) matches Err(m) && e@ == "JSON 解析失败: "@ + m,
        },
{
    match Json::parse(text) {
        Ok(msg) => Ok(read_message(&msg)),
        Err(e) => Err("JSON 解析失败: ".to_owned().concat(e.as_str())),
    }
}

/// What the commands know of a connection.
#[derive(Debug)]
pub struct Link {
    pub device_id: String,
    pub data_dir: String,
    pub config_path: String,
    pub backend_url: String,
    pub proxy_token: String,
    pub account_id: String,
}

/// What a command knows of a request that came in on a connection.
pub fn request_context(link: &Link, user_id: Option<i64>, request_id: &str) -> (res: CommandContext)
    ensures
        res.device_id@ == link.device_id@,
        res.data_dir@ == link.data_dir@,
        res.config_path@ == link.config_path@,
        res.proxy_token@ == link.proxy_token@,
        res.account_id@ == link.account_id@,
        res.backend_url@ == link.backend_url@,
        res.user_id == user_id,
        res.request_id@ == request_id@,
{
    CommandContext {
        device_id: link.device_id.as_str().to_owned(),
        data_dir: link.data_dir.as_str().to_owned(),
        config_path: link.config_path.as_str().to_owned(),
        proxy_token: link.proxy_token.as_str().to_owned(),
        account_id: link.account_id.as_str().to_owned(),
        backend_url: link.backend_url.as_str().to_owned(),
        user_id,
        request_id: request_id.to_owned(),
    }
}

/// An error as it is answered.
pub open spec fn error_json(e: RpcErrorView) -> JsonView {
    JsonView::Object(
        seq![("code"@, JsonView::Text(e.code)), ("message"@, JsonView::Text(e.message))],
    )
}

/// The answer to a request.
pub open spec fn response_json(request_id: Seq<char>, result: Result<JsonView, RpcErrorView>) -> JsonView {
    JsonView::Object(
        seq![
            ("type"@, JsonView::Text("rpc_response"@)),
            ("requestId"@, JsonView::Text(request_id)),
            ("success"@, JsonView::Bool(result is Ok)),
            (
                "data"@,
                match result {
                    Ok(j) => j,
                    Err(_) => JsonView::Null,
                },
            ),
            (
                "error"@,
                match result {
                    Ok(_) => JsonView::Null,
                    Err(e) => error_json(e),
                },
            ),
        ],
    )
}

/// The answer to a request: what the command answered, or its error.
pub fn rpc_response(request_id: &str, result: CommandResult) -> (res: Json)
    ensures
        res@ == response_json(request_id@, answer_view(result)),
{
    let ghost given = answer_view(result);
    let success = result.is_ok();
    let (data, error) = match result {
        Ok(j) => (j, Json::Null),
        Err(e) => {
            let mut members: Vec<JsonMember> = Vec::new();
            members.push(member("code", Json::string(e.code.as_str())));
            members.push(member("message", Json::string(e.message.as_str())));
            assert(member_views(members@) =~= error_json(e@)->Object_0);
            (Json::Null, Json::object(members))
        },
    };
    let mut members: Vec<JsonMember> = Vec::new();
    members.push(member("type", Json::string("rpc_response")));
    members.push(member("requestId", Json::string(request_id)));
    members.push(member("success", Json::Bool(success)));
    members.push(member("data", data));
    members.push(member("error", error));
    let res = Json::object(members);
    assert(member_views(members@) =~= response_json(request_id@, given)->Object_0);
    res
}

// ----- the connection -----

/// What came in on a connection.
#[derive(Debug)]
pub enum Frame {
    /// A text.
    Text(String),
    /// The backend closes the connection.
    Close,
    /// Something that needs no reaction.
    Other,
    /// An error.
    Failed(String),
    /// The end of the connection.
    End,
}

/// What is to be done about what came in.
#[derive(Debug)]
pub enum Reaction {
    /// Nothing.
    Nothing,
    /// Say that a device came or went.
    Notice { kind: String, device: String },
    /// Carry out the request and answer it.
    Answer(RpcRequest),
    /// Deal with the new version.
    Update(String),
    /// Say what is wrong, and go on.
    Warn(String),
    /// Give the connection up for this reason.
    Disconnect(String),
}

/// The model of [`Reaction`].
pub enum ReactionView {
    Nothing,
    Notice { kind: Seq<char>, device: Seq<char> },
    Answer(RequestView),
    Update(Seq<char>),
    Warn(Seq<char>),
    Disconnect(Seq<char>),
}

impl View for Reaction {
    type V = ReactionView;

    open spec fn view(&self) -> ReactionView {
        match self {
            Reaction::Nothing => ReactionView::Nothing,
            Reaction::Notice { kind, device } => ReactionView::Notice {
                kind: kind@,
                device: device@,
            },
            Reaction::Answer(r) => ReactionView::Answer(r@),
            Reaction::Update(v) => ReactionView::Update(v@),
            Reaction::Warn(m) => ReactionView::Warn(m@),
            Reaction::Disconnect(m) => ReactionView::Disconnect(m@),
        }
    }
}

/// What is to be done about a message.
pub open spec fn reaction(i: IncomingView) -> ReactionView {
    match i {
        IncomingView::Pong => ReactionView::Nothing,
        IncomingView::Presence { kind, device } => ReactionView::Notice { kind, device },
        IncomingView::Request(r) => ReactionView::Answer(r),
        IncomingView::Cancel(_) => ReactionView::Nothing,
        IncomingView::Update(v) => ReactionView::Update(v),
        IncomingView::Unknown(kind) => ReactionView::Warn("[relay] 未知消息类型: "@ + kind),
    }
}

/// The runs after a message: one that stops a run with a name stops it.
pub open spec fn runs_after(registry: RegistryView, account: Seq<char>, i: IncomingView) -> RegistryView {
    match i {
        IncomingView::Cancel(run) => if run.len() > 0 {
            registry.with_cancelled(run_name(account, run))
        } else {
            registry
        },
        _ => registry,
    }
}

/// What is to be done on a beat of the heart.
#[derive(Debug)]
pub enum Beat {
    /// Send this text.
    Ping(String),
    /// Give the connection up: the backend has been silent for so many seconds.
    TimedOut(u64),
}

/// A connection to the backend.
#[derive(Clone, Copy, Debug, PartialEq, Eq, Structural)]
pub struct Connection {
    /// When the backend was heard of last.
    pub last_pong: u64,
}

/// For how long the backend has been silent.
pub open spec fn silence(c: Connection, now: u64) -> int {
    if now >= c.last_pong {
        now - c.last_pong
    } else {
        0
    }
}

impl Connection {
    /// A connection that was just made.
    pub fn new(now: u64) -> (res: Connection)
        ensures
            res.last_pong == now,
    {
        Connection { last_pong: now }
    }

    /// What is to be done on a beat of the heart: the backend is pinged, unless it has been silent
    /// for too long.
    pub fn beat(&self, now: u64) -> (res: Beat)
        ensures
            match res {
                Beat::Ping(text) => silence(*self, now) <= HEARTBEAT_TIMEOUT && text@
                    == "{\"type\":\"ping\"}"@,
                Beat::TimedOut(secs) => silence(*self, now) > HEARTBEAT_TIMEOUT && secs == silence(
                    *self,
                    now,
                ) / 1_000_000_000,
            },
    {
        let quiet: u64 = if now >= self.last_pong {
            now - self.last_pong
        } else {
            0
        };
        if quiet > HEARTBEAT_TIMEOUT {
            Beat::TimedOut(quiet / 1_000_000_000)
        } else {
            Beat::Ping("{\"type\":\"ping\"}".to_owned())
        }
    }

    /// Takes a message in: the backend is heard of, a run is stopped, or something is to be done.
    pub fn take_in(
        &mut self,
        registry: &mut RunRegistry,
        account_id: &str,
        message: Incoming,
        now: u64,
    ) -> (res: Reaction)
        requires
            old(registry)@.wf(),
        ensures
            res@ == reaction(message@),
            final(registry)@ == runs_after(old(registry)@, account_id@, message@),
            final(registry)@.wf(),
            final(self).last_pong == if message@ is Pong {
                now
            } else {
                old(self).last_pong
            },
    {
        match message {
            Incoming::Pong => {
                self.last_pong = now;
                Reaction::Nothing
            },
            Incoming::Presence { kind, device } => Reaction::Notice { kind, device },
            Incoming::Request(r) => Reaction::Answer(r),
            Incoming::Cancel(run) => {
                if !run.as_str().is_empty() {
                    cancel_run(registry, account_id, run.as_str());
                }
                Reaction::Nothing
            },
            Incoming::Update(v) => Reaction::Update(v),
            Incoming::Unknown(kind) => Reaction::Warn(
                "[relay] 未知消息类型: ".to_owned().concat(kind.as_str()),
            ),
        }
    }

    /// What is to be done about what came in. A text that is no message is passed over; an end of any
    /// kind gives the connection up.
    pub fn receive(&mut self, registry: &mut RunRegistry, account_id: &str, frame: Frame, now: u64) -> (res:
        Reaction)
        requires
            old(registry)@.wf(),
        ensures
            final(registry)@.wf(),
            match frame {
                Frame::Text(text) => match json_of_text(text@) {
                    Ok(j) => {
                        &&& res@ == reaction(incoming(j))
                        &&& final(registry)@ == runs_after(
                            old(registry)@,
                            account_id@,
                            incoming(j),
                        )
                        &&& final(self).last_pong == if incoming(j) is Pong {
                            now
                        } else {
                            old(self).last_pong
                        }
                    },
                    Err(m) => res@ == ReactionView::Warn("JSON 解析失败: "@ + m) && *final(self)
                        == *old(self) && final(registry)@ == old(registry)@,
                },
                Frame::Close => res@ == ReactionView::Disconnect("服务端关闭连接"@) && *final(self)
                    == *old(self) && final(registry)@ == old(registry)@,
                Frame::Other => res@ == ReactionView::Nothing && *final(self) == *old(self)
                    && final(registry)@ == old(registry)@,
                Frame::Failed(m) => res@ == ReactionView::Disconnect("WebSocket 读取错误: "@ + m@)
                    && *final(self) == *old(self) && final(registry)@ == old(registry)@,
                Frame::End => res@ == ReactionView::Disconnect("WebSocket 流结束"@) && *final(self)
                    == *old(self) && final(registry)@ == old(registry)@,
            },
    {
        match frame {
            Frame::Text(text) => match handle_message(text.as_str()) {
                Ok(message) => self.take_in(registry, account_id, message, now),
                Err(e) => Reaction::Warn(e),
            },
            Frame::Close => Reaction::Disconnect("服务端关闭连接".to_owned()),
            Frame::Other => Reaction::Nothing,
            Frame::Failed(m) => Reaction::Disconnect(
                "WebSocket 读取错误: ".to_owned().concat(m.as_str()),
            ),
            Frame::End => Reaction::Disconnect("WebSocket 流结束".to_owned()),
        }
    }
}

// ----- one connection after the other -----

/// What every connection knows of this machine.
#[derive(Debug)]
pub struct Machine {
    pub device_id: String,
    pub os_info: String,
    pub hostname: String,
    pub backend_url: String,
    pub data_dir: String,
    pub config_path: String,
}

/// What the connections of an account have in common, from one to the next.
#[derive(Debug)]
pub struct Session {
    /// The name under which the account is known to the commands.
    pub account_id: String,
    /// The token that the next connection is made with.
    pub proxy_token: String,
    /// The name under which the device is shown.
    pub device_name: String,
}

/// The model of [`Session`].
pub struct SessionView {
    pub account_id: Seq<char>,
    pub proxy_token: Seq<char>,
    pub device_name: Seq<char>,
}

impl View for Session {
    type V = SessionView;

    open spec fn view(&self) -> SessionView {
        SessionView {
            account_id: self.account_id@,
            proxy_token: self.proxy_token@,
            device_name: self.device_name@,
        }
    }
}

/// The address of the next connection of an account.
pub open spec fn next_url(session: SessionView, machine: Machine) -> Seq<char> {
    connection_url(
        machine.backend_url@,
        session.proxy_token,
        machine.device_id@,
        session.device_name,
        machine.os_info@,
        machine.hostname@,
    )
}

/// A session once the token was to be replaced: with the new one where that was taken.
pub open spec fn session_after(
    session: SessionView,
    outcome: Result<TokenTakenView, RpcErrorView>,
) -> SessionView {
    match outcome {
        Ok(taken) => SessionView { proxy_token: taken.proxy_token, ..session },
        Err(_) => session,
    }
}

impl Session {
    /// The session of the account at a place of the configuration, counted from 0.
    pub fn new(index: usize, account: &AccountConfig) -> (res: Session)
        ensures
            res@ == (SessionView {
                account_id: decimal(index as nat),
                proxy_token: account@.proxy_token,
                device_name: account@.device_name,
            }),
    {
        Session {
            account_id: account_name(index),
            proxy_token: account.proxy_token.as_str().to_owned(),
            device_name: account.device_name.as_str().to_owned(),
        }
    }

    /// The address of the next connection.
    pub fn address(&self, machine: &Machine) -> (res: String)
        ensures
            res@ == next_url(self@, *machine),
    {
        ws_url(
            machine.backend_url.as_str(),
            self.proxy_token.as_str(),
            machine.device_id.as_str(),
            self.device_name.as_str(),
            machine.os_info.as_str(),
            machine.hostname.as_str(),
        )
    }

    /// What the commands know of the next connection.
    pub fn link(&self, machine: &Machine) -> (res: Link)
        ensures
            res.device_id@ == machine.device_id@,
            res.data_dir@ == machine.data_dir@,
            res.config_path@ == machine.config_path@,
            res.backend_url@ == machine.backend_url@,
            res.proxy_token@ == self@.proxy_token,
            res.account_id@ == self@.account_id,
    {
        Link {
            device_id: machine.device_id.as_str().to_owned(),
            data_dir: machine.data_dir.as_str().to_owned(),
            config_path: machine.config_path.as_str().to_owned(),
            backend_url: machine.backend_url.as_str().to_owned(),
            proxy_token: self.proxy_token.as_str().to_owned(),
            account_id: self.account_id.as_str().to_owned(),
        }
    }

    /// Takes the new token for the next connection, where it was taken into the configuration.
    pub fn take_token(&mut self, outcome: &Result<TokenTaken, RpcError>)
        ensures
            final(self)@ == session_after(old(self)@, token_outcome(*outcome)),
    {
        if let Ok(taken) = outcome {
            self.proxy_token = taken.proxy_token.as_str().to_owned();
        }
    }
}

/// Whether the connection is made anew once a command was answered.
pub open spec fn reconnects(command: Command, success: bool) -> bool {
    command == Command::UpdateProxyToken && success
}

/// Whether the connection is made anew once a command was answered: a new token was taken.
pub fn reconnects_after(command: Command, success: bool) -> (res: bool)
    ensures
        res == reconnects(command, success),
{
    match command {
        Command::UpdateProxyToken => success,
        _ => false,
    }
}

/// How long an account waits before its connection is made anew, in nanoseconds, given how the last
/// one ended. One that ended without an error is not made anew.
pub fn reconnect_delay(ended: &Result<(), String>) -> (res: Option<u64>)
    ensures
        res == match ended {
            Ok(_) => None,
            Err(_) => Some(RECONNECT_DELAY),
        },
{
    match ended {
        Ok(_) => None,
        Err(_) => Some(RECONNECT_DELAY),
    }
}

/// Once a new token was taken, the connection is closed, and the next one of the account is made with
/// the new token, under the same name of the device. Where it was refused, nothing changes.
pub proof fn law_next_connection_uses_the_new_token(
    session: SessionView,
    machine: Machine,
    outcome: Result<TokenTakenView, RpcErrorView>,
)
    ensures
        reconnects(Command::UpdateProxyToken, outcome is Ok) <==> outcome is Ok,
        outcome matches Ok(taken) ==> next_url(session_after(session, outcome), machine)
            == connection_url(
            machine.backend_url@,
            taken.proxy_token,
            machine.device_id@,
            session.device_name,
            machine.os_info@,
            machine.hostname@,
        ),
        outcome is Err ==> next_url(session_after(session, outcome), machine) == next_url(
            session,
            machine,
        ),
        session_after(session, outcome).account_id == session.account_id,
        session_after(session, outcome).device_name == session.device_name,
{
}

/// A backend that answers every ping is never given up: silence of no more than two beats is
/// allowed. One that stops answering is given up at the third beat after its last answer.
pub proof fn law_heartbeat_tolerates_two_beats(c: Connection, now: u64)
    ensures
        now <= c.last_pong + 2 * HEARTBEAT_INTERVAL ==> silence(c, now) <= HEARTBEAT_TIMEOUT,
        now >= c.last_pong + 3 * HEARTBEAT_INTERVAL ==> silence(c, now) > HEARTBEAT_TIMEOUT,
{
}

/// A request to stop a run of one account leaves the runs of every other account alone, but for the
/// oldest run of a full registry, which makes room for a run that was not known.
pub proof fn law_cancel_stays_in_its_account(
    registry: RegistryView,
    account: nat,
    other: nat,
    run: Seq<char>,
    other_run: Seq<char>,
)
    requires
        registry.wf(),
        account != other,
        registry.order.len() < MAX_RUN_ENTRIES || registry.entries.contains_key(
            run_name(decimal(account), run),
        ) || run_name(decimal(other), other_run) != registry.order[0],
    ensures
        ({
            let name = run_name(decimal(other), other_run);
            let after = runs_after(registry, decimal(account), IncomingView::Cancel(run));
            &&& after.entries.contains_key(name) <==> registry.entries.contains_key(name)
            &&& registry.entries.contains_key(name) ==> after.entries[name] == registry.entries[name]
        }),
{
    law_decimal_denotes(account);
    law_decimal_denotes(other);
    lemma_no_colon(account);
    lemma_no_colon(other);
    if run_name(decimal(account), run) == run_name(decimal(other), other_run) {
        law_run_names_differ(decimal(account), run, decimal(other), other_run);
    }
    law_runs_are_independent(
        registry,
        run_name(decimal(account), run),
        run_name(decimal(other), other_run),
        0,
    );
}

/// A number holds no colon.
proof fn lemma_no_colon(n: nat)
    ensures
        !decimal(n).contains(':'),
{
    law_decimal_denotes(n);
    if decimal(n).contains(':') {
        let i = choose|i: int| 0 <= i < decimal(n).len() && decimal(n)[i] == ':';
        assert(is_digit(decimal(n)[i]));
    }
}

// ----- accounts -----

/// The name under which the connection of an account, counted from 0, is known.
pub fn account_name(index: usize) -> (res: String)
    ensures
        res@ == decimal(index as nat),
{
    decimal_text(index as u64)
}

/// The name of a session: a random UUID.
pub fn new_session() -> (res: String)
    ensures
        is_uuid_v4(res@),
{
    fresh_uuid()
}

/// The event that the daemon was started, in the session of that name.
pub fn start_event(session_id: &str, platform: &str) -> (res: UsageEvent)
    ensures
        is_uuid_v4(res@.event_id),
        finishes_with(res@.client_time, "+00:00"@),
        res@ == event_at(
            "app_start"@,
            JsonView::Object(seq![("device_type"@, JsonView::Text("daemon"@))]),
            session_id@,
            platform@,
            res@.event_id,
            res@.client_time,
        ),
{
    let mut members: Vec<JsonMember> = Vec::new();
    members.push(member("device_type", Json::string("daemon")));
    assert(member_views(members@) =~= seq![("device_type"@, JsonView::Text("daemon"@))]);
    UsageEvent::new("app_start", Json::object(members), session_id, platform)
}

// ----- what messages and addresses tell -----

/// Each byte is encoded on its own, in its order: a letter, a digit and each of `-._~` stands for
/// itself, and any other byte is a percent sign with the two digits that make it.
pub proof fn law_bytes_are_encoded_one_by_one(a: Seq<u8>, b: Seq<u8>, c: u8)
    ensures
        percent_encoded(a + b) == percent_encoded(a) + percent_encoded(b),
        ({
            let letter = 'a' as int <= c as int <= 'z' as int || 'A' as int <= c as int <= 'Z' as int;
            let digit = '0' as int <= c as int <= '9' as int;
            let mark = c as int == '-' as int || c as int == '.' as int || c as int == '_' as int
                || c as int == '~' as int;
            let value = |x: char|
                if '0' <= x <= '9' {
                    x as int - '0' as int
                } else {
                    x as int - 'A' as int + 10
                };
            let one = percent_encoded(seq![c]);
            &&& letter || digit || mark ==> one == seq![c as char]
            &&& !(letter || digit || mark) ==> one.len() == 3 && one[0] == '%' && value(one[1]) * 16
                + value(one[2]) == c
        }),
    decreases b.len(),
{
    if b.len() == 0 {
        assert(a + b =~= a);
        assert(percent_encoded(a) + percent_encoded(b) =~= percent_encoded(a));
    } else {
        law_bytes_are_encoded_one_by_one(a, b.drop_last(), c);
        assert((a + b).drop_last() =~= a + b.drop_last());
        assert(percent_encoded(a + b) =~= percent_encoded(a) + percent_encoded(b));
    }
    assert(seq![c].drop_last() =~= Seq::<u8>::empty());
    assert(percent_encoded(Seq::<u8>::empty()) =~= Seq::<char>::empty());
}

/// An encoded text holds no ampersand.
proof fn lemma_encoded_text_is_one_value(s: Seq<char>)
    ensures
        !percent_encoded(encode_utf8(s)).contains('&'),
{
    let e = percent_encoded(encode_utf8(s));
    law_encoded_values_stay_values(encode_utf8(s));
    if e.contains('&') {
        let i = choose|i: int| 0 <= i < e.len() && e[i] == '&';
        assert(is_url_char(e[i]));
    }
}

/// A label without an ampersand in front of a value without one has none.
proof fn lemma_label_and_value(label: Seq<char>, value: Seq<char>)
    requires
        !label.contains('&'),
        !value.contains('&'),
    ensures
        !(label + value).contains('&'),
{
    let s = label + value;
    if s.contains('&') {
        let i = choose|i: int| 0 <= i < s.len() && s[i] == '&';
        if i < label.len() {
            assert(label[i] == '&');
        } else {
            assert(value[i - label.len()] == '&');
        }
    }
}

/// What stands in front of the first ampersand is the first piece.
proof fn lemma_first_piece(first: Seq<char>, rest: Seq<char>)
    requires
        !first.contains('&'),
    ensures
        crate::text::split_on(first + (seq!['&'] + rest), '&') == seq![first]
            + crate::text::split_on(rest, '&'),
{
    crate::text::law_one_piece(first, '&');
    crate::text::law_split_at_separator(first, '&', rest);
    assert(first + (seq!['&'] + rest) =~= first.push('&') + rest);
}

/// Texts that are put together one behind the other can be put together from the end as well.
proof fn lemma_from_the_end(a: Seq<char>, b: Seq<char>, c: Seq<char>)
    ensures
        a + b + c == a + (b + c),
{
    assert(a + b + c =~= a + (b + c));
}

/// The address of a connection, taken apart at its ampersands, holds each parameter under its own name:
/// the token of the account, the identity and the name of the device, its kind, the operating system,
/// the name of the machine, and what the daemon can do.
#[verifier::rlimit(60)]
pub proof fn law_address_holds_each_parameter(
    backend_url: Seq<char>,
    proxy_token: Seq<char>,
    device_id: Seq<char>,
    device_name: Seq<char>,
    os_info: Seq<char>,
    hostname: Seq<char>,
)
    requires
        !backend_url.contains('&'),
        !device_id.contains('&'),
    ensures
        crate::text::split_on(
            connection_url(backend_url, proxy_token, device_id, device_name, os_info, hostname),
            '&',
        ) == seq![
            backend_url + "/api/devices/ws?token="@ + percent_encoded(encode_utf8(proxy_token)),
            "deviceId="@ + device_id,
            "deviceName="@ + percent_encoded(encode_utf8(device_name)),
            "deviceType=daemon"@,
            "osInfo="@ + percent_encoded(encode_utf8(os_info)),
            "hostname="@ + percent_encoded(encode_utf8(hostname)),
            "interconnect=1"@,
            "capabilities="@ + percent_encoded(encode_utf8(capabilities())),
        ],
{
    reveal_strlit("/api/devices/ws?token=");
    reveal_strlit("&deviceId=");
    reveal_strlit("&deviceName=");
    reveal_strlit("&deviceType=daemon&osInfo=");
    reveal_strlit("&hostname=");
    reveal_strlit("&interconnect=1&capabilities=");
    reveal_strlit("deviceId=");
    reveal_strlit("deviceName=");
    reveal_strlit("deviceType=daemon");
    reveal_strlit("osInfo=");
    reveal_strlit("hostname=");
    reveal_strlit("interconnect=1");
    reveal_strlit("capabilities=");
    let t = percent_encoded(encode_utf8(proxy_token));
    let d = percent_encoded(encode_utf8(device_name));
    let o = percent_encoded(encode_utf8(os_info));
    let h = percent_encoded(encode_utf8(hostname));
    let c = percent_encoded(encode_utf8(capabilities()));
    lemma_encoded_text_is_one_value(proxy_token);
    lemma_encoded_text_is_one_value(device_name);
    lemma_encoded_text_is_one_value(os_info);
    lemma_encoded_text_is_one_value(hostname);
    lemma_encoded_text_is_one_value(capabilities());
    lemma_label_and_value(backend_url, "/api/devices/ws?token="@);
    lemma_label_and_value(backend_url + "/api/devices/ws?token="@, t);
    lemma_label_and_value("deviceId="@, device_id);
    lemma_label_and_value("deviceName="@, d);
    lemma_label_and_value("osInfo="@, o);
    lemma_label_and_value("hostname="@, h);
    lemma_label_and_value("capabilities="@, c);
    let p1 = backend_url + "/api/devices/ws?token="@ + t;
    let p2 = "deviceId="@ + device_id;
    let p3 = "deviceName="@ + d;
    let p4 = "deviceType=daemon"@;
    let p5 = "osInfo="@ + o;
    let p6 = "hostname="@ + h;
    let p7 = "interconnect=1"@;
    let p8 = "capabilities="@ + c;
    let amp = seq!['&'];
    let r7 = p7 + (amp + p8);
    let r6 = p6 + (amp + r7);
    let r5 = p5 + (amp + r6);
    let r4 = p4 + (amp + r5);
    let r3 = p3 + (amp + r4);
    let r2 = p2 + (amp + r3);
    let r1 = p1 + (amp + r2);
    crate::text::law_one_piece(p8, '&');
    lemma_first_piece(p7, p8);
    lemma_first_piece(p6, r7);
    lemma_first_piece(p5, r6);
    lemma_first_piece(p4, r5);
    lemma_first_piece(p3, r4);
    lemma_first_piece(p2, r3);
    lemma_first_piece(p1, r2);
    assert(crate::text::split_on(r1, '&') =~= seq![p1, p2, p3, p4, p5, p6, p7, p8]);
    let l2 = "&deviceId="@;
    let l3 = "&deviceName="@;
    let l4 = "&deviceType=daemon&osInfo="@;
    let l6 = "&hostname="@;
    let l7 = "&interconnect=1&capabilities="@;
    assert(l7 + c =~= amp + r7);
    lemma_from_the_end(h, l7, c);
    assert(l6 + (h + (l7 + c)) =~= amp + r6);
    lemma_from_the_end(o, l6, h + (l7 + c));
    assert(l4 + (o + (l6 + (h + (l7 + c)))) =~= amp + r4);
    assert(l3 + (d + (amp + r4)) =~= amp + r3);
    assert(l2 + (device_id + (amp + r3)) =~= amp + r2);
    let url = connection_url(backend_url, proxy_token, device_id, device_name, os_info, hostname);
    let h1 = p1 + l2 + device_id + l3 + d + l4 + o + l6 + h;
    lemma_from_the_end(h1, l7, c);
    let h2 = p1 + l2 + device_id + l3 + d + l4 + o + l6;
    lemma_from_the_end(h2, h, l7 + c);
    let h3 = p1 + l2 + device_id + l3 + d + l4 + o;
    lemma_from_the_end(h3, l6, h + (l7 + c));
    let h4 = p1 + l2 + device_id + l3 + d + l4;
    lemma_from_the_end(h4, o, l6 + (h + (l7 + c)));
    let h5 = p1 + l2 + device_id + l3 + d;
    lemma_from_the_end(h5, l4, o + (l6 + (h + (l7 + c))));
    let h6 = p1 + l2 + device_id + l3;
    lemma_from_the_end(h6, d, amp + r4);
    let h7 = p1 + l2 + device_id;
    lemma_from_the_end(h7, l3, d + (amp + r4));
    let h8 = p1 + l2;
    lemma_from_the_end(h8, device_id, amp + r3);
    lemma_from_the_end(p1, l2, device_id + (amp + r3));
    assert(url == r1);
}

/// A request is carried out exactly where a message is of the type `rpc_request`, with the identity,
/// the command, the parameters and the user that the message gives.
pub proof fn law_requests_are_carried_out(msg: JsonView)
    ensures
        ({
            let todo = reaction(incoming(msg));
            &&& todo is Answer <==> msg.text("type"@) == Some("rpc_request"@)
            &&& todo matches ReactionView::Answer(r) ==> {
                &&& match msg.text("requestId"@) {
                    Some(id) => r.request_id == id,
                    None => r.request_id.len() == 0,
                }
                &&& match msg.text("command"@) {
                    Some(c) => r.command == c,
                    None => r.command.len() == 0,
                }
                &&& match msg.get("params"@) {
                    Some(p) => r.params == p,
                    None => r.params is Null,
                }
                &&& r.user_id == msg.signed("userId"@)
            }
        }),
{
    lemma_message_types();
}

/// The types of messages are told apart.
proof fn lemma_message_types()
    ensures
        "".view().len() == 0,
        "pong"@.len() == 4,
        "device_online"@.len() == 13,
        "device_offline"@.len() == 14,
        "rpc_request"@.len() == 11,
        "rpc_cancel"@.len() == 10,
        "update_available"@.len() == 16,
{
    reveal_strlit("");
    reveal_strlit("pong");
    reveal_strlit("device_online");
    reveal_strlit("device_offline");
    reveal_strlit("rpc_request");
    reveal_strlit("rpc_cancel");
    reveal_strlit("update_available");
}

/// A new version is dealt with exactly where a message is of the type `update_available`, devices that
/// come and go are told of, and a message of an unknown type is only warned of. An answer to a ping, and
/// the request to stop a run, need nothing more.
pub proof fn law_other_messages(msg: JsonView)
    ensures
        ({
            let kind = msg.text("type"@);
            let todo = reaction(incoming(msg));
            let known = kind == Some("pong"@) || kind == Some("device_online"@) || kind == Some(
                "device_offline"@,
            ) || kind == Some("rpc_request"@) || kind == Some("rpc_cancel"@) || kind == Some(
                "update_available"@,
            );
            &&& todo is Update <==> kind == Some("update_available"@)
            &&& todo matches ReactionView::Update(v) ==> (msg.text("version"@) matches Some(s) ==> v
                == s)
            &&& todo is Notice <==> kind == Some("device_online"@) || kind == Some(
                "device_offline"@,
            )
            &&& todo matches ReactionView::Notice { kind: k, device } ==> kind == Some(k) && (msg.text(
                "deviceName"@,
            ) matches Some(s) ==> device == s)
            &&& todo is Nothing <==> kind == Some("pong"@) || kind == Some("rpc_cancel"@)
            &&& todo is Warn <==> !known
            &&& incoming(msg) is Pong <==> kind == Some("pong"@)
            &&& incoming(msg) is Cancel <==> kind == Some("rpc_cancel"@)
        }),
{
    lemma_message_types();
}

/// A message that stops a run of an account makes that run count as stopped, under every generation.
/// A message without a run, or of any other type, stops nothing.
pub proof fn law_cancel_stops_its_run(
    registry: RegistryView,
    account: Seq<char>,
    msg: JsonView,
    run: Seq<char>,
    generation: u64,
)
    requires
        registry.wf(),
    ensures
        msg.text("type"@) == Some("rpc_cancel"@) && msg.text("runId"@) == Some(run) && run.len() > 0
            ==> runs_after(registry, account, incoming(msg)).is_cancelled(
            run_name(account, run),
            generation,
        ),
        msg.text("type"@) != Some("rpc_cancel"@) ==> runs_after(registry, account, incoming(msg))
            == registry,
        msg.text("runId"@) is None ==> runs_after(registry, account, incoming(msg)) == registry,
{
    lemma_message_types();
    crate::commands::law_cancelled_run_is_cancelled(registry, run_name(account, run), generation);
}

/// The answer to a request carries its identity, says whether the command succeeded, and holds what the
/// command answered, or its error, and never both.
pub proof fn law_response_answers_its_request(
    request_id: Seq<char>,
    result: Result<JsonView, RpcErrorView>,
)
    ensures
        ({
            let j = response_json(request_id, result);
            &&& j.text("type"@) == Some("rpc_response"@)
            &&& j.text("requestId"@) == Some(request_id)
            &&& j.flag("success"@) == Some(result is Ok)
            &&& result matches Ok(data) ==> j.get("data"@) == Some(data) && j.get("error"@) == Some(
                JsonView::Null,
            )
            &&& result matches Err(e) ==> j.get("data"@) == Some(JsonView::Null) && (j.get(
                "error"@,
            ) matches Some(shown) && shown.text("code"@) == Some(e.code) && shown.text("message"@)
                == Some(e.message))
        }),
{
    reveal_strlit("type");
    reveal_strlit("requestId");
    reveal_strlit("success");
    reveal_strlit("data");
    reveal_strlit("error");
    reveal_strlit("code");
    reveal_strlit("message");
    assert("type"@.len() == 4);
    assert("requestId"@.len() == 9);
    assert("success"@.len() == 7);
    assert("data"@.len() == 4);
    assert("error"@.len() == 5);
    assert("code"@.len() == 4);
    assert("message"@.len() == 7);
    assert("type"@[0] != "data"@[0]);
    assert("type"@[0] != "code"@[0]);
    assert("success"@[0] != "message"@[0]);
    assert("data"@[0] != "code"@[0]);
    reveal_with_fuel(crate::json::member_from, 8);
}

/// Silence is the time since the backend was heard of last. It is given up after more than a minute of
/// it, and pinged every half minute before that.
pub proof fn law_silence_is_counted(c: Connection, now: u64)
    ensures
        now >= c.last_pong ==> silence(c, now) == now - c.last_pong,
        now < c.last_pong ==> silence(c, now) == 0,
        HEARTBEAT_TIMEOUT == 2 * HEARTBEAT_INTERVAL,
        HEARTBEAT_INTERVAL == 30_000_000_000,
        RECONNECT_DELAY == 3_000_000_000,
{
}

/// Only a new token that was taken closes the connection.
pub proof fn law_only_a_new_token_reconnects(command: Command, success: bool)
    ensures
        reconnects(command, success) <==> success && command is UpdateProxyToken,
{
}

} // verus!
