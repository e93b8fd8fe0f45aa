//! Access tokens: how they are obtained, kept and given up.
//!
//! Times are nanoseconds on a clock that does not go back.
use crate::digest::{hex, sha256, sha256_hex};
use crate::http::{
    HttpReply, JsonReply, ReplyView, decode_fetch, fetch_view, fetched, is_success, success_code,
};
use crate::text::{opt_view, same_text, strip_trailing, without_trailing};
use vstd::hash_map::StringHashMap;
use vstd::prelude::*;
use vstd::string::*;
use vstd::utf8::encode_utf8;

verus! {

/// How long before its end a token is no longer used, in nanoseconds.
pub const REFRESH_AHEAD: u64 = 60_000_000_000;

/// How long a token lasts where the backend does not say, in seconds.
pub const DEFAULT_TTL_SECS: u64 = 1500;

/// The shortest and the longest time that a token is taken to last, in seconds.
pub const MIN_TTL_SECS: u64 = 60;

/// The longest time that a token is taken to last, in seconds.
pub const MAX_TTL_SECS: u64 = 3600;

// ----- errors -----

/// Why there is no token.
#[derive(Debug)]
pub struct RefreshError {
    pub code: String,
    pub message: String,
}

/// The model of [`RefreshError`].
pub struct RefreshErrorView {
    pub code: Seq<char>,
    pub message: Seq<char>,
}

impl View for RefreshError {
    type V = RefreshErrorView;

    open spec fn view(&self) -> RefreshErrorView {
        RefreshErrorView { code: self.code@, message: self.message@ }
    }
}

/// An error with a code and a message.
pub open spec fn refresh_error(code: Seq<char>, message: Seq<char>) -> RefreshErrorView {
    RefreshErrorView { code, message }
}

/// Whether the token of the account has expired.
pub open spec fn token_expired(e: RefreshErrorView) -> bool {
    e.code == "PROXY_TOKEN_INVALID"@ || e.code == "REFRESH_TOKEN_EXPIRED"@
}

/// What the user is told of an error.
pub open spec fn told(e: RefreshErrorView) -> Seq<char> {
    if token_expired(e) {
        e.message + "（请在设备管理-远程管理中重新授权，更新 daemon 令牌）"@
    } else if e.code == "RATE_LIMITED"@ {
        e.message + "（触发限流，请稍后重试）"@
    } else {
        e.message
    }
}

impl RefreshError {
    /// An error with a code and a message.
    pub fn new(code: &str, message: String) -> (res: RefreshError)
        ensures
            res@ == refresh_error(code@, message@),
    {
        RefreshError { code: code.to_owned(), message }
    }

    /// Whether the token of the account has expired, so that it has to be authorised again.
    pub fn is_token_expired(&self) -> (res: bool)
        ensures
            res == token_expired(self@),
    {
        same_text(self.code.as_str(), "PROXY_TOKEN_INVALID") || same_text(
            self.code.as_str(),
            "REFRESH_TOKEN_EXPIRED",
        )
    }

    /// What the user is told: with an expired token to authorise again, with too many requests to
    /// wait.
    pub fn user_message(&self) -> (res: String)
        ensures
            res@ == told(self@),
    {
        let message = self.message.as_str().to_owned();
        if self.is_token_expired() {
            return message.concat("（请在设备管理-远程管理中重新授权，更新 daemon 令牌）");
        }
        if same_text(self.code.as_str(), "RATE_LIMITED") {
            return message.concat("（触发限流，请稍后重试）");
        }
        message
    }
}

// ----- tokens that are kept -----

/// A token that is kept.
#[derive(Debug)]
pub struct CachedToken {
    pub access_token: String,
    /// When it expires.
    pub expires_at: u64,
}

impl CachedToken {
    /// How much longer the token lasts.
    pub open spec fn left(self, now: u64) -> int {
        if self.expires_at >= now {
            self.expires_at - now
        } else {
            0
        }
    }

    /// Whether the token lasts long enough to be used.
    pub open spec fn usable(self, now: u64) -> bool {
        self.left(now) > REFRESH_AHEAD
    }

    /// How much longer the token lasts, 0 once it has expired.
    pub fn remaining(&self, now: u64) -> (res: u64)
        ensures
            res == self.left(now),
    {
        if self.expires_at >= now {
            self.expires_at - now
        } else {
            0
        }
    }

    /// Whether the token lasts longer than a minute.
    pub fn is_usable(&self, now: u64) -> (res: bool)
        ensures
            res == self.usable(now),
    {
        self.remaining(now) > REFRESH_AHEAD
    }
}

/// The name under which the tokens of an account are kept: a digest, not the token of the account.
pub open spec fn key_of(proxy_token: Seq<char>) -> Seq<char> {
    hex(sha256(encode_utf8(proxy_token)))
}

/// The name under which the tokens of an account are kept: 64 hexadecimal digits.
pub fn token_key(proxy_token: &str) -> (res: String)
    ensures
        res@ == key_of(proxy_token@),
        res@.len() == 64,
        forall|i: int| 0 <= i < res@.len() ==> crate::digest::is_hex(#[trigger] res@[i]),
{
    sha256_hex(proxy_token.as_bytes())
}

/// The tokens that are kept.
pub struct TokenCache {
    pub entries: StringHashMap<CachedToken>,
}

impl View for TokenCache {
    type V = Map<Seq<char>, CachedToken>;

    open spec fn view(&self) -> Map<Seq<char>, CachedToken> {
        self.entries@
    }
}

/// The token that is kept for an account and can be used, if there is one.
pub open spec fn usable_token(
    cache: Map<Seq<char>, CachedToken>,
    proxy_token: Seq<char>,
    now: u64,
) -> Option<Seq<char>> {
    if cache.contains_key(key_of(proxy_token)) && cache[key_of(proxy_token)].usable(now) {
        Some(cache[key_of(proxy_token)].access_token@)
    } else {
        None
    }
}

impl TokenCache {
    /// No token is kept.
    pub fn new() -> (res: TokenCache)
        ensures
            res@ == Map::<Seq<char>, CachedToken>::empty(),
    {
        TokenCache { entries: StringHashMap::new() }
    }

    /// Keeps a token that was fetched for an account and lasts so many seconds.
    pub fn store(&mut self, proxy_token: &str, access_token: &str, ttl_secs: u64, now: u64)
        requires
            now + ttl_secs * 1_000_000_000 <= u64::MAX,
        ensures
            ({
                let key = key_of(proxy_token@);
                &&& final(self)@ == old(self)@.insert(key, final(self)@[key])
                &&& final(self)@[key].access_token@ == access_token@
                &&& final(self)@[key].expires_at == now + ttl_secs * 1_000_000_000
            }),
    {
        let key = token_key(proxy_token);
        let entry = CachedToken {
            access_token: access_token.to_owned(),
            expires_at: now + ttl_secs * 1_000_000_000,
        };
        self.entries.insert(key, entry);
    }
}

/// The token that is kept for an account and can be used. Where there is none, one has to be
/// fetched.
pub fn ensure_access_token(cache: &TokenCache, proxy_token: &str, now: u64) -> (res: Option<String>)
    ensures
        opt_view(res) == usable_token(cache@, proxy_token@, now),
{
    let key = token_key(proxy_token);
    match cache.entries.get(key.as_str()) {
        Some(entry) => {
            if entry.is_usable(now) {
                Some(entry.access_token.as_str().to_owned())
            } else {
                None
            }
        },
        None => None,
    }
}

/// Gives up the token that is kept for an account.
pub fn invalidate_cache(cache: &mut TokenCache, proxy_token: &str)
    ensures
        final(cache)@ == old(cache)@.remove(key_of(proxy_token@)),
{
    let key = token_key(proxy_token);
    cache.entries.remove(key.as_str());
}

/// A token that was kept is used as long as it lasts for more than a minute, and no longer. One that
/// was given up is not used.
pub proof fn law_kept_token_is_used_in_time(
    cache: Map<Seq<char>, CachedToken>,
    proxy_token: Seq<char>,
    entry: CachedToken,
    now: u64,
)
    ensures
        usable_token(cache.insert(key_of(proxy_token), entry), proxy_token, now)
            == if now + REFRESH_AHEAD < entry.expires_at {
            Some(entry.access_token@)
        } else {
            None
        },
        usable_token(cache.remove(key_of(proxy_token)), proxy_token, now) is None,
{
}

/// A token that was granted for more than a minute is the one that is used next, without asking
/// again, and one that was granted for no more is fetched anew.
pub proof fn law_granted_token_is_used_next(
    cache: Map<Seq<char>, CachedToken>,
    proxy_token: Seq<char>,
    entry: CachedToken,
    secs: u64,
    now: u64,
)
    requires
        entry.expires_at == now + secs * 1_000_000_000,
    ensures
        usable_token(cache.insert(key_of(proxy_token), entry), proxy_token, now) == if secs > 60 {
            Some(entry.access_token@)
        } else {
            None
        },
{
}

/// What is kept for one account does not touch what is kept under another name.
pub proof fn law_accounts_keep_their_tokens(
    cache: Map<Seq<char>, CachedToken>,
    account: Seq<char>,
    other: Seq<char>,
    entry: CachedToken,
    now: u64,
)
    requires
        key_of(account) != key_of(other),
    ensures
        usable_token(cache.insert(key_of(account), entry), other, now) == usable_token(
            cache,
            other,
            now,
        ),
        usable_token(cache.remove(key_of(account)), other, now) == usable_token(cache, other, now),
{
}

// ----- fetching a token -----

/// What the backend grants.
#[derive(Debug)]
pub struct RefreshResponse {
    pub success: bool,
    pub access_token: String,
    /// How long the token lasts, in seconds.
    pub expires_in: Option<u64>,
}

/// Why the backend refuses.
#[derive(Debug)]
pub struct RefreshErrorResponse {
    pub code: Option<String>,
    pub message: Option<String>,
}

/// The body of a reply, read both as a refusal and as a grant.
#[derive(Debug)]
pub struct RefreshBody {
    /// The refusal, with nothing in it where the body is none.
    pub refusal: RefreshErrorResponse,
    /// The grant, or why the body is none.
    pub grant: Result<RefreshResponse, String>,
}

/// The reply of the backend.
#[derive(Debug)]
pub struct RefreshReply {
    /// The status code.
    pub code: u16,
    /// The status in words.
    pub status: String,
    /// The body, or why it could not be read.
    pub body: Result<RefreshBody, String>,
}

/// The address that grants tokens.
pub fn refresh_url(backend_url: &str) -> (res: String)
    ensures
        res@ == without_trailing(backend_url@, '/') + "/auth/refresh"@,
{
    strip_trailing(backend_url, '/').concat("/auth/refresh")
}

/// How long a token is taken to last, in seconds: from one minute to one hour, and 25 minutes where
/// nothing is said.
pub open spec fn ttl(expires_in: Option<u64>) -> u64 {
    let said = match expires_in {
        Some(s) => s,
        None => DEFAULT_TTL_SECS,
    };
    if said < MIN_TTL_SECS {
        MIN_TTL_SECS
    } else if said > MAX_TTL_SECS {
        MAX_TTL_SECS
    } else {
        said
    }
}

/// What is there, or a default.
pub open spec fn text_or_else(o: Option<String>, default: Seq<char>) -> Seq<char> {
    match o {
        Some(s) => s@,
        None => default,
    }
}

/// The token that a reply grants and how long it lasts, or the error.
pub open spec fn granted(reply: Result<RefreshReply, String>) -> Result<
    (Seq<char>, u64),
    RefreshErrorView,
> {
    match reply {
        Err(e) => Err(refresh_error("REFRESH_FAILED"@, "刷新令牌请求失败: "@ + e@)),
        Ok(r) => match r.body {
            Err(e) => Err(refresh_error("REFRESH_FAILED"@, "读取刷新响应失败: "@ + e@)),
            Ok(body) => if !success_code(r.code) {
                Err(
                    refresh_error(
                        text_or_else(body.refusal.code, "UNKNOWN"@),
                        text_or_else(
                            body.refusal.message,
                            "刷新令牌失败 (HTTP "@ + r.status@ + ")"@,
                        ),
                    ),
                )
            } else {
                match body.grant {
                    Err(e) => Err(refresh_error("REFRESH_FAILED"@, "解析刷新响应失败: "@ + e@)),
                    Ok(g) => if !g.success || g.access_token@.len() == 0 {
                        Err(refresh_error("REFRESH_FAILED"@, "刷新令牌返回异常"@))
                    } else {
                        Ok((g.access_token@, ttl(g.expires_in)))
                    },
                }
            },
        },
    }
}

/// The token that the reply of the backend grants, with how long it lasts in seconds.
pub fn refresh_via_backend(reply: Result<RefreshReply, String>) -> (res: Result<
    (String, u64),
    RefreshError,
>)
    ensures
        match res {
            Ok((token, secs)) => granted(reply) == Ok::<(Seq<char>, u64), RefreshErrorView>(
                (token@, secs),
            ) && MIN_TTL_SECS <= secs <= MAX_TTL_SECS && token@.len() > 0,
            Err(e) => granted(reply) == Err::<(Seq<char>, u64), RefreshErrorView>(e@),
        },
{
    let r = match reply {
        Ok(r) => r,
        Err(e) => {
            return Err(
                RefreshError::new(
                    "REFRESH_FAILED",
                    "刷新令牌请求失败: ".to_owned().concat(e.as_str()),
                ),
            );
        },
    };
    let body = match r.body {
        Ok(b) => b,
        Err(e) => {
            return Err(
                RefreshError::new(
                    "REFRESH_FAILED",
                    "读取刷新响应失败: ".to_owned().concat(e.as_str()),
                ),
            );
        },
    };
    if !is_success(r.code) {
        let code = match body.refusal.code {
            Some(c) => c,
            None => "UNKNOWN".to_owned(),
        };
        let message = match body.refusal.message {
            Some(m) => m,
            None => "刷新令牌失败 (HTTP ".to_owned().concat(r.status.as_str()).concat(")"),
        };
        return Err(RefreshError::new(code.as_str(), message));
    }
    let grant = match body.grant {
        Ok(g) => g,
        Err(e) => {
            return Err(
                RefreshError::new(
                    "REFRESH_FAILED",
                    "解析刷新响应失败: ".to_owned().concat(e.as_str()),
                ),
            );
        },
    };
    if !grant.success || grant.access_token.as_str().is_empty() {
        return Err(RefreshError::new("REFRESH_FAILED", "刷新令牌返回异常".to_owned()));
    }
    let said: u64 = grant.expires_in.unwrap_or(DEFAULT_TTL_SECS);
    let secs: u64 = if said < MIN_TTL_SECS {
        MIN_TTL_SECS
    } else if said > MAX_TTL_SECS {
        MAX_TTL_SECS
    } else {
        said
    };
    Ok((grant.access_token, secs))
}

/// Ends fetching a token, given the reply of the backend: a token that is granted is kept for the
/// account as long as it lasts and is returned, and a refusal leaves the kept tokens as they were.
pub fn conclude_refresh(
    cache: &mut TokenCache,
    proxy_token: &str,
    reply: Result<RefreshReply, String>,
    now: u64,
) -> (res: Result<String, RefreshError>)
    requires
        now + MAX_TTL_SECS * 1_000_000_000 <= u64::MAX,
    ensures
        ({
            let key = key_of(proxy_token@);
            match granted(reply) {
                Ok((token, secs)) => {
                    &&& res matches Ok(t) && t@ == token
                    &&& final(cache)@ == old(cache)@.insert(key, final(cache)@[key])
                    &&& final(cache)@[key].access_token@ == token
                    &&& final(cache)@[key].expires_at == now + secs * 1_000_000_000
                },
                Err(e) => {
                    &&& res matches Err(r) && r@ == e
                    &&& final(cache)@ == old(cache)@
                },
            }
        }),
        forall|k: Seq<char>|
            k != key_of(proxy_token@) ==> (#[trigger] final(cache)@.contains_key(k) <==> old(
                cache,
            )@.contains_key(k)),
        forall|k: Seq<char>|
            k != key_of(proxy_token@) && old(cache)@.contains_key(k) ==> #[trigger] final(cache)@[k]
                == old(cache)@[k],
{
    match refresh_via_backend(reply) {
        Ok((token, secs)) => {
            cache.store(proxy_token, token.as_str(), secs, now);
            Ok(token)
        },
        Err(e) => Err(e),
    }
}

/// Whether the token of an account is good: the backend grants a token for it. That one is not kept.
pub fn validate_proxy_token(reply: Result<RefreshReply, String>) -> (res: Result<(), RefreshError>)
    ensures
        match res {
            Ok(_) => granted(reply) is Ok,
            Err(e) => granted(reply) == Err::<(Seq<char>, u64), RefreshErrorView>(e@),
        },
{
    match refresh_via_backend(reply) {
        Ok(_) => Ok(()),
        Err(e) => Err(e),
    }
}

// ----- the token of the user -----

/// The address that tells who the user is.
pub const USER_INFO_URL: &'static str = "https://cf-v2.uapis.cn/userinfo";

/// The token of the user in a reply, or the error.
pub open spec fn user_token_of(reply: Result<ReplyView, Seq<char>>) -> Result<
    Seq<char>,
    RefreshErrorView,
> {
    match reply {
        Err(e) => Err(refresh_error("USER_INFO_FAILED"@, "获取用户信息失败: "@ + e)),
        Ok(r) => match r.body {
            Err(e) => Err(refresh_error("USER_INFO_FAILED"@, "解析用户信息失败: "@ + e)),
            Ok(body) => if !success_code(r.code) || body.signed("code"@) != Some(200i64) {
                Err(
                    refresh_error(
                        "USER_INFO_FAILED"@,
                        "获取用户信息失败: "@ + body.text_or("msg"@, "未知错误"@),
                    ),
                )
            } else {
                let token = match body.get("data"@) {
                    Some(data) => data.text_or("usertoken"@, ""@),
                    None => ""@,
                };
                if token.len() == 0 {
                    Err(refresh_error("USER_INFO_FAILED"@, "用户信息中缺少 usertoken"@))
                } else {
                    Ok(token)
                }
            },
        },
    }
}

/// The token of the user in a reply that was read.
pub fn read_user_token(reply: Result<JsonReply, String>) -> (res: Result<String, RefreshError>)
    ensures
        match res {
            Ok(token) => user_token_of(fetch_view(reply)) == Ok::<Seq<char>, RefreshErrorView>(
                token@,
            ),
            Err(e) => user_token_of(fetch_view(reply)) == Err::<Seq<char>, RefreshErrorView>(e@),
        },
{
    let r = match reply {
        Ok(r) => r,
        Err(e) => {
            return Err(
                RefreshError::new(
                    "USER_INFO_FAILED",
                    "获取用户信息失败: ".to_owned().concat(e.as_str()),
                ),
            );
        },
    };
    let body = match r.body {
        Ok(b) => b,
        Err(e) => {
            return Err(
                RefreshError::new(
                    "USER_INFO_FAILED",
                    "解析用户信息失败: ".to_owned().concat(e.as_str()),
                ),
            );
        },
    };
    let granted = match body.signed("code") {
        Some(code) => code == 200,
        None => false,
    };
    if !is_success(r.code) || !granted {
        let msg = body.text_or("msg", "未知错误");
        return Err(
            RefreshError::new(
                "USER_INFO_FAILED",
                "获取用户信息失败: ".to_owned().concat(msg.as_str()),
            ),
        );
    }
    let token = match body.get("data") {
        Some(data) => data.text_or("usertoken", ""),
        None => "".to_owned(),
    };
    if token.as_str().is_empty() {
        return Err(RefreshError::new("USER_INFO_FAILED", "用户信息中缺少 usertoken".to_owned()));
    }
    Ok(token)
}

/// The token of the user, from the reply as it came in.
pub fn ensure_user_token(reply: Result<HttpReply, String>) -> (res: Result<String, RefreshError>)
    ensures
        match res {
            Ok(token) => user_token_of(fetched(reply)) == Ok::<Seq<char>, RefreshErrorView>(token@),
            Err(e) => user_token_of(fetched(reply)) == Err::<Seq<char>, RefreshErrorView>(e@),
        },
{
    read_user_token(decode_fetch(reply))
}

// ----- what a reply grants -----

/// A token is taken to last as long as the backend says, but no shorter than a minute and no longer
/// than an hour, and twenty-five minutes where it does not say.
pub proof fn law_tokens_last_a_minute_to_an_hour(said: u64)
    ensures
        60 <= said <= 3600 ==> ttl(Some(said)) == said,
        said < 60 ==> ttl(Some(said)) == 60,
        said > 3600 ==> ttl(Some(said)) == 3600,
        ttl(None) == 25 * 60,
{
}

/// A token is granted exactly by a reply with a status of success whose body can be read as a grant,
/// says success and holds a token that is not empty; it is that token, for the time that the grant
/// says.
pub proof fn law_token_is_granted_by_a_good_reply(reply: Result<RefreshReply, String>)
    ensures
        ({
            let grants = reply matches Ok(r) && 200 <= r.code && r.code <= 299 && (
            r.body matches Ok(body) && (body.grant matches Ok(g) && g.success && g.access_token@.len()
                > 0));
            &&& granted(reply) is Ok <==> grants
            &&& granted(reply) matches Ok((token, secs)) ==> {
                let g = reply->Ok_0.body->Ok_0.grant->Ok_0;
                &&& token == g.access_token@
                &&& secs == ttl(g.expires_in)
                &&& 60 <= secs <= 3600
            }
        }),
{
}

/// A refusal of the backend is told with its own code and message, where it gives them; every other
/// failure is a failed refresh.
pub proof fn law_refusal_is_told_with_its_code(reply: Result<RefreshReply, String>)
    requires
        granted(reply) is Err,
    ensures
        ({
            let e = granted(reply)->Err_0;
            let refused = reply matches Ok(r) && r.body is Ok && !(200 <= r.code && r.code <= 299);
            &&& refused ==> {
                let refusal = reply->Ok_0.body->Ok_0.refusal;
                &&& refusal.code matches Some(c) ==> e.code == c@
                &&& refusal.code is None ==> e.code == "UNKNOWN"@
                &&& refusal.message matches Some(m) ==> e.message == m@
            }
            &&& !refused ==> e.code == "REFRESH_FAILED"@
        }),
{
}

/// What the user is told begins with the message of the error. Whose token has expired is told to
/// authorise again, and who asked too often to wait; nobody else is told more.
pub proof fn law_user_is_told_what_to_do(e: RefreshErrorView)
    ensures
        told(e).len() >= e.message.len() && told(e).take(e.message.len() as int) == e.message,
        token_expired(e) || e.code == "RATE_LIMITED"@ <==> told(e).len() > e.message.len(),
        token_expired(e) <==> e.code == "PROXY_TOKEN_INVALID"@ || e.code == "REFRESH_TOKEN_EXPIRED"@,
        token_expired(e) ==> crate::text::has_text(told(e), "重新授权"@),
        !token_expired(e) && e.code == "RATE_LIMITED"@ ==> crate::text::has_text(
            told(e),
            "稍后重试"@,
        ),
{
    reveal_strlit("（请在设备管理-远程管理中重新授权，更新 daemon 令牌）");
    reveal_strlit("（触发限流，请稍后重试）");
    reveal_strlit("重新授权");
    reveal_strlit("稍后重试");
    let n = e.message.len() as int;
    assert(told(e).take(n) =~= e.message);
    if token_expired(e) {
        let at = n + 13;
        assert(told(e).subrange(at, at + 4) =~= "重新授权"@);
        assert(crate::text::occurs_at(told(e), "重新授权"@, at));
    } else if e.code == "RATE_LIMITED"@ {
        let at = n + 7;
        assert(told(e).subrange(at, at + 4) =~= "稍后重试"@);
        assert(crate::text::occurs_at(told(e), "稍后重试"@, at));
    }
}

/// The token of the user is the one that a reply with success and the code 200 holds under `data`, and
/// it is never empty. Anything else is an error of the user information.
pub proof fn law_user_token_is_that_of_the_reply(reply: Result<ReplyView, Seq<char>>)
    ensures
        ({
            let good = reply matches Ok(r) && 200 <= r.code && r.code <= 299 && (
            r.body matches Ok(body) && body.signed("code"@) == Some(200i64) && (body.get(
                "data"@,
            ) matches Some(data) && (data.text("usertoken"@) matches Some(t) && t.len() > 0)));
            &&& user_token_of(reply) is Ok <==> good
            &&& user_token_of(reply) matches Ok(t) ==> reply->Ok_0.body->Ok_0.get("data"@)->0.text(
                "usertoken"@,
            ) == Some(t)
            &&& user_token_of(reply) matches Err(e) ==> e.code == "USER_INFO_FAILED"@
        }),
{
    reveal_strlit("");
}

/// A token is used only while more than a minute of its time is left, and an expired one has none.
pub proof fn law_token_is_used_until_its_last_minute(token: CachedToken, now: u64)
    ensures
        token.usable(now) <==> token.expires_at > now + 60_000_000_000,
        token.expires_at > now ==> now + token.left(now) == token.expires_at,
        token.expires_at <= now ==> token.left(now) == 0,
{
}

} // verus!
