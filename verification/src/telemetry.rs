//! Usage events: their queue, and how they are reported.
use crate::commands::auth::{key_of, token_key};
use crate::commands::daemon_update::get_current_version;
use crate::digest::{hex, is_hex, lemma_hex_shape, sha256};
use crate::http::{is_success, success_code};
use crate::ident::{current_time, fresh_uuid, is_uuid_v4};
use crate::json::{Json, JsonMember, JsonView, count_view, member, member_views};
use crate::text::{
    finishes_with, has_text, join_path, occurs_at, path_join, replace_first, replaced_first,
    strip_trailing, without_trailing,
};
use vstd::prelude::*;
use vstd::string::*;
use vstd::utf8::encode_utf8;

verus! {

/// How many events are reported at a time.
pub const BATCH_SIZE: usize = 100;

/// How often events are reported, in seconds.
pub const REPORT_INTERVAL_SECS: u64 = 30;

// ----- events -----

/// Something that happened.
#[derive(Debug)]
pub struct UsageEvent {
    pub event_id: String,
    pub event_type: String,
    pub event_version: u32,
    pub event_data: Json,
    pub app_version: String,
    pub platform: String,
    pub session_id: String,
    pub client_time: String,
}

/// The model of [`UsageEvent`].
pub struct EventView {
    pub event_id: Seq<char>,
    pub event_type: Seq<char>,
    pub event_version: u32,
    pub event_data: JsonView,
    pub app_version: Seq<char>,
    pub platform: Seq<char>,
    pub session_id: Seq<char>,
    pub client_time: Seq<char>,
}

impl View for UsageEvent {
    type V = EventView;

    open spec fn view(&self) -> EventView {
        EventView {
            event_id: self.event_id@,
            event_type: self.event_type@,
            event_version: self.event_version,
            event_data: self.event_data@,
            app_version: self.app_version@,
            platform: self.platform@,
            session_id: self.session_id@,
            client_time: self.client_time@,
        }
    }
}

/// An event with its identity and its time.
pub open spec fn event_at(
    event_type: Seq<char>,
    event_data: JsonView,
    session_id: Seq<char>,
    platform: Seq<char>,
    event_id: Seq<char>,
    client_time: Seq<char>,
) -> EventView {
    EventView {
        event_id,
        event_type,
        event_version: 1,
        event_data,
        app_version: "0.3.16"@,
        platform,
        session_id,
        client_time,
    }
}

impl UsageEvent {
    /// An event with its identity and its time.
    pub fn with_identity(
        event_type: &str,
        event_data: Json,
        session_id: &str,
        platform: &str,
        event_id: String,
        client_time: String,
    ) -> (res: UsageEvent)
        ensures
            res@ == event_at(
                event_type@,
                event_data@,
                session_id@,
                platform@,
                event_id@,
                client_time@,
            ),
    {
        UsageEvent {
            event_id,
            event_type: event_type.to_owned(),
            event_version: 1,
            event_data,
            app_version: get_current_version(),
            platform: platform.to_owned(),
            session_id: session_id.to_owned(),
            client_time,
        }
    }

    /// An event that happens now, with an identity of its own.
    pub fn new(event_type: &str, event_data: Json, session_id: &str, platform: &str) -> (res: UsageEvent)
        ensures
            is_uuid_v4(res@.event_id),
            finishes_with(res@.client_time, "+00:00"@),
            res@ == event_at(
                event_type@,
                event_data@,
                session_id@,
                platform@,
                res@.event_id,
                res@.client_time,
            ),
    {
        let id = fresh_uuid();
        let time = current_time();
        UsageEvent::with_identity(event_type, event_data, session_id, platform, id, time)
    }
}

/// An event as it is reported.
pub open spec fn event_json(e: EventView) -> JsonView {
    JsonView::Object(
        seq![
            ("eventId"@, JsonView::Text(e.event_id)),
            ("eventType"@, JsonView::Text(e.event_type)),
            ("eventVersion"@, count_view(e.event_version as u64)),
            ("eventData"@, e.event_data),
            ("appVersion"@, JsonView::Text(e.app_version)),
            ("platform"@, JsonView::Text(e.platform)),
            ("sessionId"@, JsonView::Text(e.session_id)),
            ("clientTime"@, JsonView::Text(e.client_time)),
        ],
    )
}

impl UsageEvent {
    /// The event as it is reported.
    pub fn to_json(&self) -> (res: Json)
        ensures
            res@ == event_json(self@),
    {
        let mut members: Vec<JsonMember> = Vec::new();
        members.push(member("eventId", Json::string(self.event_id.as_str())));
        members.push(member("eventType", Json::string(self.event_type.as_str())));
        members.push(member("eventVersion", Json::count(self.event_version as u64)));
        members.push(member("eventData", self.event_data.duplicate()));
        members.push(member("appVersion", Json::string(self.app_version.as_str())));
        members.push(member("platform", Json::string(self.platform.as_str())));
        members.push(member("sessionId", Json::string(self.session_id.as_str())));
        members.push(member("clientTime", Json::string(self.client_time.as_str())));
        let res = Json::object(members);
        assert(member_views(members@) =~= event_json(self@)->Object_0);
        res
    }
}

// ----- the queue -----

/// The path of the queue of an account.
pub open spec fn queue_path(data_dir: Seq<char>, proxy_token: Seq<char>) -> Seq<char> {
    path_join(path_join(data_dir, "telemetry"@), key_of(proxy_token) + ".db"@)
}

/// The path of the queue of an account: it shows a digest of the token, not the token.
pub fn account_queue_path(data_dir: &str, proxy_token: &str) -> (res: String)
    ensures
        res@ == queue_path(data_dir@, proxy_token@),
{
    let dir = join_path(data_dir, "telemetry");
    let key = token_key(proxy_token);
    let name = key.concat(".db");
    join_path(dir.as_str(), name.as_str())
}

/// Whether a text holds a character that is neither a hexadecimal digit nor a full stop.
pub open spec fn beyond_digest(token: Seq<char>) -> bool {
    exists|i: int|
        0 <= i < token.len() && !is_hex(#[trigger] token[i]) && token[i] != '.'
}

/// The file name of a queue does not show a text that holds a character that no such file name
/// holds.
proof fn lemma_digest_hides(digest: Seq<u8>, token: Seq<char>)
    requires
        beyond_digest(token),
    ensures
        !has_text(hex(digest) + ".db"@, token),
{
    reveal_strlit(".db");
    lemma_hex_shape(digest);
    let key = hex(digest);
    let name = key + ".db"@;
    if has_text(name, token) {
        let at = choose|at: int| occurs_at(name, token, at);
        let i = choose|i: int|
            0 <= i < token.len() && !is_hex(#[trigger] token[i]) && token[i] != '.';
        assert(name.subrange(at, at + token.len())[i] == token[i]);
        assert(name[at + i] == token[i]);
        if at + i < key.len() {
            assert(is_hex(key[at + i]));
        } else {
            assert(name[at + i] == ".db"@[at + i - key.len()]);
        }
    }
}

/// The path of a queue does not show the token of the account, as long as the directory does not,
/// and the token holds a character that no file name of a queue holds, and no slash.
pub proof fn law_queue_path_hides_token(data_dir: Seq<char>, token: Seq<char>)
    requires
        beyond_digest(token),
        !token.contains('/'),
        !has_text(path_join(data_dir, "telemetry"@), token),
    ensures
        !has_text(queue_path(data_dir, token), token),
{
    reveal_strlit("telemetry");
    reveal_strlit(".db");
    let digest = sha256(encode_utf8(token));
    lemma_digest_hides(digest, token);
    lemma_hex_shape(digest);
    let dir = path_join(data_dir, "telemetry"@);
    let name = key_of(token) + ".db"@;
    let path = queue_path(data_dir, token);
    assert(dir.len() > 0 && dir.last() == 'y');
    assert(key_of(token).len() > 0 ==> name[0] == key_of(token)[0]);
    assert(path == dir.push('/') + name);
    if has_text(path, token) {
        let at = choose|at: int| occurs_at(path, token, at);
        let n = dir.len() as int;
        if at + token.len() <= n {
            assert(dir.subrange(at, at + token.len()) =~= path.subrange(at, at + token.len()));
            assert(occurs_at(dir, token, at));
        } else if at > n {
            let k = at - n - 1;
            assert(name.subrange(k, k + token.len()) =~= path.subrange(at, at + token.len()));
            assert(occurs_at(name, token, k));
        } else {
            assert(path.subrange(at, at + token.len())[n - at] == '/');
            assert(token[n - at] == '/');
        }
    }
}

/// Accounts with different digests have different queues.
pub proof fn law_queues_are_kept_apart(data_dir: Seq<char>, a: Seq<char>, b: Seq<char>)
    requires
        queue_path(data_dir, a) == queue_path(data_dir, b),
    ensures
        key_of(a) == key_of(b),
{
    reveal_strlit("telemetry");
    reveal_strlit(".db");
    let dir = path_join(data_dir, "telemetry"@);
    assert(dir.len() > 0 && dir.last() == 'y');
    let x = key_of(a) + ".db"@;
    let y = key_of(b) + ".db"@;
    lemma_hex_shape(sha256(encode_utf8(a)));
    lemma_hex_shape(sha256(encode_utf8(b)));
    assert(key_of(a).len() > 0 ==> x[0] == key_of(a)[0]);
    assert(key_of(b).len() > 0 ==> y[0] == key_of(b)[0]);
    assert(x =~= queue_path(data_dir, a).skip(dir.len() as int + 1));
    assert(y =~= queue_path(data_dir, b).skip(dir.len() as int + 1));
    assert(key_of(a) =~= x.take(x.len() - 3));
    assert(key_of(b) =~= y.take(y.len() - 3));
}

// ----- reporting -----

/// The address that reports go to: that of the backend, over HTTP.
pub open spec fn report_url(backend_url: Seq<char>) -> Seq<char> {
    replaced_first(
        replaced_first(without_trailing(backend_url, '/'), "wss://"@, "https://"@),
        "ws://"@,
        "http://"@,
    ) + "/api/usage/daemon-report"@
}

/// The address that reports go to.
pub fn report_endpoint(backend_url: &str) -> (res: String)
    ensures
        res@ == report_url(backend_url@),
{
    proof {
        reveal_strlit("wss://");
        reveal_strlit("ws://");
    }
    let base = strip_trailing(backend_url, '/');
    let secure = replace_first(base.as_str(), "wss://", "https://");
    replace_first(secure.as_str(), "ws://", "http://").concat("/api/usage/daemon-report")
}

/// What reporting a batch gave.
#[derive(Debug)]
pub enum ReportOutcome {
    /// It could not be sent, for this reason.
    NotSent(String),
    /// It was answered with a status, and the answer says whether it was taken, if it says so.
    Answered { code: u16, status: String, accepted: Option<bool> },
}

/// What becomes of a batch.
#[derive(Debug)]
pub enum BatchFate {
    /// It was taken and leaves the queue.
    Remove,
    /// It stays and is reported again.
    Keep,
    /// It stays and is reported again, and this is said.
    KeepWarning(String),
}

/// Whether the backend has taken a batch.
pub open spec fn was_taken(outcome: ReportOutcome) -> bool {
    match outcome {
        ReportOutcome::NotSent(_) => false,
        ReportOutcome::Answered { code, status, accepted } => success_code(code) && accepted == Some(
            true,
        ),
    }
}

/// What becomes of a batch: it leaves the queue only once the backend has taken it.
pub fn run_reporter(outcome: ReportOutcome) -> (res: BatchFate)
    ensures
        res == BatchFate::Remove <==> was_taken(outcome),
        match outcome {
            ReportOutcome::NotSent(e) => res matches BatchFate::KeepWarning(m) && m@
                == "[telemetry] 上报失败: "@ + e@,
            ReportOutcome::Answered { code, status, accepted } => !success_code(code) ==> (
            res matches BatchFate::KeepWarning(m) && m@ == "[telemetry] 上报失败: HTTP "@ + status@),
        },
        outcome matches ReportOutcome::Answered { code, status, accepted } ==> (success_code(code)
            && accepted != Some(true) ==> res == BatchFate::Keep),
{
    match outcome {
        ReportOutcome::NotSent(e) => BatchFate::KeepWarning(
            "[telemetry] 上报失败: ".to_owned().concat(e.as_str()),
        ),
        ReportOutcome::Answered { code, status, accepted } => {
            if !is_success(code) {
                return BatchFate::KeepWarning(
                    "[telemetry] 上报失败: HTTP ".to_owned().concat(status.as_str()),
                );
            }
            match accepted {
                Some(true) => BatchFate::Remove,
                _ => BatchFate::Keep,
            }
        },
    }
}

// ----- what is reported where -----

/// An event tells what it was made with, each in its place, and goes with the version of the
/// program, which is the one that the settings show.
pub proof fn law_event_tells_what_happened(
    event_type: Seq<char>,
    event_data: JsonView,
    session_id: Seq<char>,
    platform: Seq<char>,
    event_id: Seq<char>,
    client_time: Seq<char>,
)
    ensures
        ({
            let j = event_json(
                event_at(event_type, event_data, session_id, platform, event_id, client_time),
            );
            &&& j.text("eventId"@) == Some(event_id)
            &&& j.text("eventType"@) == Some(event_type)
            &&& j.unsigned("eventVersion"@) == Some(1u64)
            &&& j.get("eventData"@) == Some(event_data)
            &&& j.text("appVersion"@) == crate::commands::daemon_update::settings_json(true).text(
                "currentVersion"@,
            )
            &&& j.text("appVersion"@) is Some
            &&& j.text("platform"@) == Some(platform)
            &&& j.text("sessionId"@) == Some(session_id)
            &&& j.text("clientTime"@) == Some(client_time)
        }),
{
    crate::commands::daemon_update::law_settings_are_answered(true);
    reveal_strlit("success");
    reveal_strlit("autoUpdate");
    reveal_strlit("currentVersion");
    assert("success"@.len() == 7);
    assert("autoUpdate"@.len() == 10);
    assert("currentVersion"@.len() == 14);
    reveal_strlit("eventId");
    reveal_strlit("eventType");
    reveal_strlit("eventVersion");
    reveal_strlit("eventData");
    reveal_strlit("appVersion");
    reveal_strlit("platform");
    reveal_strlit("sessionId");
    reveal_strlit("clientTime");
    assert("eventId"@.len() == 7);
    assert("eventType"@.len() == 9);
    assert("eventVersion"@.len() == 12);
    assert("eventData"@.len() == 9);
    assert("appVersion"@.len() == 10);
    assert("platform"@.len() == 8);
    assert("sessionId"@.len() == 9);
    assert("clientTime"@.len() == 10);
    assert("eventType"@[5] != "eventData"@[5]);
    assert("eventType"@[0] != "sessionId"@[0]);
    assert("eventData"@[0] != "sessionId"@[0]);
    assert("appVersion"@[0] != "clientTime"@[0]);
    reveal_with_fuel(crate::json::member_from, 9);
}

/// The queue of an account is a file of the directory `telemetry` below the data directory, named by
/// the digest of the token.
pub proof fn law_queue_is_named_by_the_digest(data_dir: Seq<char>, proxy_token: Seq<char>)
    requires
        data_dir.len() > 0,
        data_dir.last() != '/',
    ensures
        queue_path(data_dir, proxy_token) == data_dir + "/telemetry/"@ + hex(
            sha256(encode_utf8(proxy_token)),
        ) + ".db"@,
{
    reveal_strlit("telemetry");
    reveal_strlit("/telemetry/");
    reveal_strlit(".db");
    let dir = path_join(data_dir, "telemetry"@);
    let name = key_of(proxy_token) + ".db"@;
    lemma_hex_shape(sha256(encode_utf8(proxy_token)));
    assert(dir.last() == 'y');
    assert(key_of(proxy_token).len() > 0 ==> name[0] == key_of(proxy_token)[0]);
    assert(queue_path(data_dir, proxy_token) =~= data_dir + "/telemetry/"@ + hex(
        sha256(encode_utf8(proxy_token)),
    ) + ".db"@);
}

/// Reports go to the backend itself, over HTTP: encrypted where the connection is, and in the open where
/// it is not.
pub proof fn law_reports_go_to_the_backend(rest: Seq<char>)
    requires
        rest.len() > 0,
        rest.last() != '/',
        !has_text("https://"@ + rest, "ws://"@),
    ensures
        report_url("wss://"@ + rest) == "https://"@ + rest + "/api/usage/daemon-report"@,
        report_url("ws://"@ + rest) == "http://"@ + rest + "/api/usage/daemon-report"@
            || has_text("ws://"@ + rest, "wss://"@),
        report_url("wss://"@ + rest.push('/')) == report_url("wss://"@ + rest),
{
    reveal_strlit("wss://");
    reveal_strlit("ws://");
    reveal_strlit("https://");
    reveal_strlit("http://");
    let a = "wss://"@ + rest;
    let b = "ws://"@ + rest;
    crate::text::law_nothing_to_strip(a, '/');
    crate::text::law_nothing_to_strip(b, '/');
    assert(a.subrange(0, 6) =~= "wss://"@);
    crate::text::law_first_occurrence_is_replaced(a, "wss://"@, "https://"@, 0);
    assert(a.take(0) + "https://"@ + a.skip(6) =~= "https://"@ + rest);
    crate::text::law_nothing_to_replace("https://"@ + rest, "ws://"@, "http://"@);
    if !has_text(b, "wss://"@) {
        crate::text::law_nothing_to_replace(b, "wss://"@, "https://"@);
        assert(b.subrange(0, 5) =~= "ws://"@);
        crate::text::law_first_occurrence_is_replaced(b, "ws://"@, "http://"@, 0);
        assert(b.take(0) + "http://"@ + b.skip(5) =~= "http://"@ + rest);
    }
    let c = "wss://"@ + rest.push('/');
    assert(c.last() == '/');
    assert(c.drop_last() =~= a);
}

/// A batch leaves the queue only once the backend has taken it: it was sent, the status says success,
/// and the answer says that it was accepted.
pub proof fn law_only_taken_batches_go(outcome: ReportOutcome)
    ensures
        was_taken(outcome) <==> (outcome matches ReportOutcome::Answered { code, status, accepted }
            && 200 <= code && code <= 299 && accepted == Some(true)),
{
}

} // verus!
