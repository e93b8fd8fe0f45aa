//! Remote changes to the configuration.
use super::auth::{
    CachedToken, RefreshError, RefreshErrorView, TokenCache, invalidate_cache, key_of, usable_token,
};
use super::{CommandContext, CommandResult, RpcError, RpcErrorView, rpc_error};
use crate::config;
use crate::config::{AccountView, Config, ConfigView};
use crate::json::{Json, JsonMember, JsonView, count_view, item_views, member, member_views};
use crate::text::{
    from_chars, has_text, is_blank, occurs_at, opt_view, parse_uint, parsed, same_text, to_chars,
    trim, trimmed,
};
use vstd::prelude::*;
use vstd::string::*;

verus! {

// ----- showing the configuration -----

/// How many characters of a token are shown.
pub const SHOWN_CHARS: usize = 8;

/// What is shown of a token: all of a short one, and the first eight characters of a longer one with
/// three stops behind them.
pub open spec fn shown_token(token: Seq<char>) -> Seq<char> {
    if token.len() > SHOWN_CHARS {
        token.take(SHOWN_CHARS as int) + "..."@
    } else {
        token
    }
}

/// What is shown of a token.
pub fn token_preview(token: &str) -> (res: String)
    ensures
        res@ == shown_token(token@),
{
    let chars = to_chars(token);
    if chars.len() > SHOWN_CHARS {
        assert(token@.subrange(0, SHOWN_CHARS as int) =~= token@.take(SHOWN_CHARS as int));
        from_chars(&chars, 0, SHOWN_CHARS).concat("...")
    } else {
        token.to_owned()
    }
}

/// What is shown of a token that is cut does not hold the token, unless all that is cut off is up to
/// three stops.
pub proof fn law_long_tokens_are_hidden(token: Seq<char>)
    requires
        token.len() > SHOWN_CHARS,
        token.len() > 11 || exists|i: int|
            SHOWN_CHARS <= i < token.len() && #[trigger] token[i] != '.',
    ensures
        !has_text(shown_token(token), token),
{
    reveal_strlit("...");
    let shown = shown_token(token);
    if has_text(shown, token) {
        let at = choose|at: int| occurs_at(shown, token, at);
        assert(token.len() <= 11);
        let i = choose|i: int| SHOWN_CHARS <= i < token.len() && #[trigger] token[i] != '.';
        assert(shown.subrange(at, at + token.len())[i] == token[i]);
        assert(shown[at + i] == '.');
    }
}

/// An account as it is shown.
pub open spec fn account_json(account: AccountView, index: int) -> JsonView {
    JsonView::Object(
        seq![
            ("index"@, count_view(index as u64)),
            ("deviceName"@, JsonView::Text(account.device_name)),
            ("tokenPreview"@, JsonView::Text(shown_token(account.proxy_token))),
        ],
    )
}

/// The accounts as they are shown, numbered from 1 on.
pub open spec fn accounts_json(accounts: Seq<AccountView>) -> Seq<JsonView> {
    Seq::new(accounts.len(), |i: int| account_json(accounts[i], i + 1))
}

/// The configuration as it is shown.
pub open spec fn config_json(cfg: ConfigView) -> JsonView {
    JsonView::Object(
        seq![
            ("backendUrl"@, JsonView::Text(cfg.backend_url)),
            ("dataDir"@, JsonView::Text(cfg.data_dir)),
            ("autoUpdate"@, JsonView::Bool(cfg.update.auto_update)),
            ("accounts"@, JsonView::Array(accounts_json(cfg.accounts))),
        ],
    )
}

/// The configuration as it is shown, without the tokens. One that could not be loaded is an error.
pub fn get_config(loaded: Result<Config, String>) -> (res: CommandResult)
    ensures
        match loaded {
            Ok(cfg) => res matches Ok(j) && j@ == config_json(cfg@),
            Err(m) => res matches Err(e) && e@ == rpc_error("CONFIG_LOAD_FAILED"@, m@),
        },
{
    let cfg = match loaded {
        Ok(c) => c,
        Err(m) => return Err(RpcError::new("CONFIG_LOAD_FAILED", m)),
    };
    let ghost made = accounts_json(cfg@.accounts);
    let n: usize = cfg.accounts.len();
    let mut accounts: Vec<Json> = Vec::new();
    let mut i: usize = 0;
    assert(item_views(accounts@) =~= made.take(0));
    while i < n
        invariant
            n == cfg.accounts@.len(),
            i <= n,
            loaded == Ok::<Config, String>(cfg),
            made == accounts_json(cfg@.accounts),
            item_views(accounts@) == made.take(i as int),
        decreases n - i,
    {
        let account = &cfg.accounts[i];
        assert(cfg@.accounts[i as int] == account@);
        let preview = token_preview(account.proxy_token.as_str());
        let mut members: Vec<JsonMember> = Vec::new();
        members.push(member("index", Json::count((i + 1) as u64)));
        members.push(member("deviceName", Json::string(account.device_name.as_str())));
        members.push(member("tokenPreview", Json::string(preview.as_str())));
        assert(member_views(members@) =~= account_json(account@, i + 1)->Object_0);
        let ghost before = item_views(accounts@);
        let item = Json::object(members);
        accounts.push(item);
        assert(item_views(accounts@) =~= before.push(item@));
        i = i + 1;
        assert(item_views(accounts@) =~= made.take(i as int));
    }
    assert(made.take(n as int) =~= made);
    let mut members: Vec<JsonMember> = Vec::new();
    members.push(member("backendUrl", Json::string(cfg.server.backend_url.as_str())));
    members.push(member("dataDir", Json::string(cfg.server.data_dir.as_str())));
    members.push(member("autoUpdate", Json::Bool(cfg.update.auto_update)));
    members.push(member("accounts", Json::array(accounts)));
    let res = Json::object(members);
    assert(member_views(members@) =~= config_json(cfg@)->Object_0);
    Ok(res)
}

// ----- changing the configuration -----

/// What an account is added with.
#[derive(Debug)]
pub struct AddAccountParams {
    pub proxy_token: String,
    pub device_name: String,
}

/// What an account is changed with.
#[derive(Debug)]
pub struct ModifyAccountParams {
    /// The number of the account, counted from 1.
    pub index: usize,
    pub proxy_token: Option<String>,
    pub device_name: Option<String>,
}

/// What an account is removed with.
#[derive(Clone, Copy, Debug, PartialEq, Eq, Structural)]
pub struct DeleteAccountParams {
    /// The number of the account, counted from 1.
    pub index: usize,
}

/// What the address of the backend is changed with.
#[derive(Debug)]
pub struct SetBackendUrlParams {
    pub backend_url: String,
}

/// What the token of the account that asks is replaced with.
#[derive(Debug)]
pub struct UpdateProxyTokenParams {
    pub proxy_token: String,
}

/// The answer to a change.
pub open spec fn changed_json(message: Seq<char>) -> JsonView {
    JsonView::Object(
        seq![("success"@, JsonView::Bool(true)), ("message"@, JsonView::Text(message))],
    )
}

/// The answer to a change.
pub fn changed(message: &str) -> (res: Json)
    ensures
        res@ == changed_json(message@),
{
    let mut members: Vec<JsonMember> = Vec::new();
    members.push(member("success", Json::Bool(true)));
    members.push(member("message", Json::string(message)));
    let res = Json::object(members);
    assert(member_views(members@) =~= changed_json(message@)->Object_0);
    res
}

/// A changed configuration, which is to be saved, and what is answered once it is.
pub type ChangeResult = Result<(Config, Json), RpcError>;

/// The model of a configuration that was loaded, or of why it was not.
pub open spec fn loaded_view(loaded: Result<Config, String>) -> Result<ConfigView, Seq<char>> {
    match loaded {
        Ok(cfg) => Ok(cfg@),
        Err(e) => Err(e@),
    }
}

/// A change comes out as expected: with its error, or with the changed configuration and the
/// message.
pub open spec fn comes_out(
    res: ChangeResult,
    expected: Result<ConfigView, RpcErrorView>,
    message: Seq<char>,
) -> bool {
    match expected {
        Ok(cfg) => res matches Ok((c, j)) && c@ == cfg && j@ == changed_json(message),
        Err(e) => res matches Err(r) && r@ == e,
    }
}

/// The error that the configuration could not be loaded or changed.
pub open spec fn save_error(message: Seq<char>) -> RpcErrorView {
    rpc_error("CONFIG_SAVE_FAILED"@, message)
}

/// The configuration with an account more, or the error.
pub open spec fn with_account(
    loaded: Result<ConfigView, Seq<char>>,
    token: Seq<char>,
    name: Seq<char>,
) -> Result<ConfigView, RpcErrorView> {
    if trimmed(token).len() == 0 {
        Err(rpc_error("INVALID_PARAMS"@, "proxyToken 不能为空"@))
    } else {
        match loaded {
            Err(e) => Err(save_error(e)),
            Ok(cfg) => if config::token_from(cfg.accounts, token, 0) is Some {
                Err(save_error("该 proxyToken 已存在"@))
            } else {
                Ok(
                    config::with_accounts(
                        cfg,
                        cfg.accounts.push(
                            AccountView { proxy_token: token, device_name: name },
                        ),
                    ),
                )
            },
        }
    }
}

/// Adds an account.
pub fn add_account(loaded: Result<Config, String>, params: AddAccountParams) -> (res: ChangeResult)
    ensures
        comes_out(
            res,
            with_account(loaded_view(loaded), params.proxy_token@, params.device_name@),
            "账号已添加，重启服务后生效"@,
        ),
{
    if is_blank(params.proxy_token.as_str()) {
        return Err(RpcError::new("INVALID_PARAMS", "proxyToken 不能为空".to_owned()));
    }
    let mut cfg = match loaded {
        Ok(c) => c,
        Err(e) => return Err(RpcError::new("CONFIG_SAVE_FAILED", e)),
    };
    match config::add_account(&mut cfg, params.proxy_token, params.device_name) {
        Ok(_) => Ok((cfg, changed("账号已添加，重启服务后生效"))),
        Err(e) => Err(RpcError::new("CONFIG_SAVE_FAILED", e)),
    }
}

/// The configuration with another token and another name of an account, as far as they are given,
/// or the error.
pub open spec fn with_changed_account(
    loaded: Result<ConfigView, Seq<char>>,
    index: usize,
    token: Option<Seq<char>>,
    name: Option<Seq<char>>,
) -> Result<ConfigView, RpcErrorView> {
    match loaded {
        Err(e) => Err(save_error(e)),
        Ok(cfg) => if config::has_index(cfg, index) {
            let account = cfg.accounts[index - 1];
            Ok(
                config::with_accounts(
                    cfg,
                    cfg.accounts.update(
                        index - 1,
                        AccountView {
                            proxy_token: config::given_or(token, account.proxy_token),
                            device_name: config::given_or(name, account.device_name),
                        },
                    ),
                ),
            )
        } else {
            Err(save_error(config::index_complaint(index, cfg.accounts.len())))
        },
    }
}

/// Changes an account.
pub fn modify_account(loaded: Result<Config, String>, params: ModifyAccountParams) -> (res:
    ChangeResult)
    ensures
        comes_out(
            res,
            with_changed_account(
                loaded_view(loaded),
                params.index,
                opt_view(params.proxy_token),
                opt_view(params.device_name),
            ),
            "账号已修改，重启服务后生效"@,
        ),
{
    let mut cfg = match loaded {
        Ok(c) => c,
        Err(e) => return Err(RpcError::new("CONFIG_SAVE_FAILED", e)),
    };
    match config::modify_account(&mut cfg, params.index, params.proxy_token, params.device_name) {
        Ok(_) => Ok((cfg, changed("账号已修改，重启服务后生效"))),
        Err(e) => Err(RpcError::new("CONFIG_SAVE_FAILED", e)),
    }
}

/// The configuration without an account, or the error.
pub open spec fn without_account(loaded: Result<ConfigView, Seq<char>>, index: usize) -> Result<
    ConfigView,
    RpcErrorView,
> {
    match loaded {
        Err(e) => Err(save_error(e)),
        Ok(cfg) => if config::has_index(cfg, index) {
            Ok(config::with_accounts(cfg, cfg.accounts.remove(index - 1)))
        } else {
            Err(save_error(config::index_complaint(index, cfg.accounts.len())))
        },
    }
}

/// Removes an account.
pub fn delete_account(loaded: Result<Config, String>, params: DeleteAccountParams) -> (res:
    ChangeResult)
    ensures
        comes_out(
            res,
            without_account(loaded_view(loaded), params.index),
            "账号已删除，重启服务后生效"@,
        ),
{
    let mut cfg = match loaded {
        Ok(c) => c,
        Err(e) => return Err(RpcError::new("CONFIG_SAVE_FAILED", e)),
    };
    match config::delete_account(&mut cfg, params.index) {
        Ok(_) => Ok((cfg, changed("账号已删除，重启服务后生效"))),
        Err(e) => Err(RpcError::new("CONFIG_SAVE_FAILED", e)),
    }
}

/// The configuration with another address of the backend, or the error.
pub open spec fn with_backend(loaded: Result<ConfigView, Seq<char>>, url: Seq<char>) -> Result<
    ConfigView,
    RpcErrorView,
> {
    if trimmed(url).len() == 0 {
        Err(rpc_error("INVALID_PARAMS"@, "backendUrl 不能为空"@))
    } else {
        match loaded {
            Err(e) => Err(save_error(e)),
            Ok(cfg) => Ok(ConfigView { backend_url: url, ..cfg }),
        }
    }
}

/// Changes the address of the backend.
pub fn set_backend_url(loaded: Result<Config, String>, params: SetBackendUrlParams) -> (res:
    ChangeResult)
    ensures
        comes_out(
            res,
            with_backend(loaded_view(loaded), params.backend_url@),
            "后端地址已修改，重启服务后生效"@,
        ),
{
    if is_blank(params.backend_url.as_str()) {
        return Err(RpcError::new("INVALID_PARAMS", "backendUrl 不能为空".to_owned()));
    }
    let mut cfg = match loaded {
        Ok(c) => c,
        Err(e) => return Err(RpcError::new("CONFIG_SAVE_FAILED", e)),
    };
    config::set_backend_url(&mut cfg, params.backend_url);
    Ok((cfg, changed("后端地址已修改，重启服务后生效")))
}

// ----- a new token for the account that asks -----

/// The new token, where it is worth trying, or the error.
pub open spec fn new_token_of(given: Seq<char>, current: Seq<char>) -> Result<Seq<char>, RpcErrorView> {
    if trimmed(given).len() == 0 {
        Err(rpc_error("INVALID_PARAMS"@, "proxyToken 不能为空"@))
    } else if trimmed(given) == current {
        Err(rpc_error("TOKEN_UNCHANGED"@, "新令牌与当前令牌相同，无需更新"@))
    } else {
        Ok(trimmed(given))
    }
}

/// The new token of the account that asks. The backend has to be asked whether it is good.
pub fn update_proxy_token(params: &UpdateProxyTokenParams, ctx: &CommandContext) -> (res: Result<
    String,
    RpcError,
>)
    ensures
        match res {
            Ok(t) => new_token_of(params.proxy_token@, ctx.proxy_token@) == Ok::<
                Seq<char>,
                RpcErrorView,
            >(t@),
            Err(e) => new_token_of(params.proxy_token@, ctx.proxy_token@) == Err::<
                Seq<char>,
                RpcErrorView,
            >(e@),
        },
{
    let token = trim(params.proxy_token.as_str());
    if token.as_str().is_empty() {
        return Err(RpcError::new("INVALID_PARAMS", "proxyToken 不能为空".to_owned()));
    }
    if same_text(token.as_str(), ctx.proxy_token.as_str()) {
        return Err(RpcError::new("TOKEN_UNCHANGED", "新令牌与当前令牌相同，无需更新".to_owned()));
    }
    Ok(token)
}

/// The number of the account, counted from 1, that a connection belongs to: connections count from
/// 0. It is 0 where the connection has no number.
pub open spec fn fallback_of(account_id: Seq<char>) -> int {
    match parsed(account_id, usize::MAX as nat) {
        Some(i) => i as int + 1,
        None => 0,
    }
}

/// The number of the account that a connection belongs to.
fn fallback_index(account_id: &str) -> (res: usize)
    requires
        fallback_of(account_id@) <= usize::MAX,
    ensures
        res == fallback_of(account_id@),
{
    match parse_uint(account_id, usize::MAX as u64) {
        Some(i) => i as usize + 1,
        None => 0,
    }
}

/// The configuration with the new token of an account, or the error: the token is not good, the
/// configuration could not be loaded, or the account is not there.
pub open spec fn with_new_token(
    loaded: Result<ConfigView, Seq<char>>,
    old_token: Seq<char>,
    new_token: Seq<char>,
    fallback: int,
    verdict: Result<(), RefreshErrorView>,
) -> Result<ConfigView, RpcErrorView> {
    match verdict {
        Err(e) => Err(rpc_error(e.code, "新令牌校验失败: "@ + e.message)),
        Ok(_) => match loaded {
            Err(e) => Err(save_error(e)),
            Ok(cfg) => match config::token_holder(cfg, old_token, fallback as usize) {
                Some(at) => Ok(
                    config::with_accounts(
                        cfg,
                        cfg.accounts.update(
                            at,
                            AccountView { proxy_token: new_token, ..cfg.accounts[at] },
                        ),
                    ),
                ),
                None => Err(
                    save_error(
                        config::index_complaint(fallback as usize, cfg.accounts.len()),
                    ),
                ),
            },
        },
    }
}

/// Takes a new token into the configuration once the backend has said whether it is good. Once it is
/// saved the kept tokens of both are given up, and the connection is made anew.
pub fn apply_proxy_token(
    loaded: Result<Config, String>,
    ctx: &CommandContext,
    new_token: &str,
    verdict: Result<(), RefreshError>,
) -> (res: ChangeResult)
    requires
        fallback_of(ctx.account_id@) <= usize::MAX,
    ensures
        comes_out(
            res,
            with_new_token(
                loaded_view(loaded),
                ctx.proxy_token@,
                new_token@,
                fallback_of(ctx.account_id@),
                match verdict {
                    Ok(_) => Ok(()),
                    Err(e) => Err(e@),
                },
            ),
            "令牌已更新，正在使用新令牌重连"@,
        ),
{
    if let Err(e) = verdict {
        return Err(
            RpcError::new(
                e.code.as_str(),
                "新令牌校验失败: ".to_owned().concat(e.message.as_str()),
            ),
        );
    }
    let mut cfg = match loaded {
        Ok(c) => c,
        Err(e) => return Err(RpcError::new("CONFIG_SAVE_FAILED", e)),
    };
    let fallback: usize = fallback_index(ctx.account_id.as_str());
    match config::replace_account_token(&mut cfg, ctx.proxy_token.as_str(), new_token, fallback) {
        Ok(_) => Ok((cfg, changed("令牌已更新，正在使用新令牌重连"))),
        Err(e) => Err(RpcError::new("CONFIG_SAVE_FAILED", e)),
    }
}

/// A new token that was taken into the configuration, and what is answered.
#[derive(Debug)]
pub struct TokenTaken {
    pub answer: Json,
    pub proxy_token: String,
}

/// The model of [`TokenTaken`].
pub struct TokenTakenView {
    pub answer: JsonView,
    pub proxy_token: Seq<char>,
}

impl View for TokenTaken {
    type V = TokenTakenView;

    open spec fn view(&self) -> TokenTakenView {
        TokenTakenView { answer: self.answer@, proxy_token: self.proxy_token@ }
    }
}

/// The model of whether a new token was taken.
pub open spec fn token_outcome(outcome: Result<TokenTaken, RpcError>) -> Result<
    TokenTakenView,
    RpcErrorView,
> {
    match outcome {
        Ok(taken) => Ok(taken@),
        Err(e) => Err(e@),
    }
}

/// Whether a new token was taken, given what is answered then and whether the changed configuration
/// could be saved. Once it was, the access tokens that are kept for both tokens are given up.
pub fn conclude_proxy_token(
    cache: &mut TokenCache,
    answer: Json,
    old_token: &str,
    new_token: &str,
    saved: Result<(), String>,
) -> (res: Result<TokenTaken, RpcError>)
    ensures
        token_outcome(res) == match saved {
            Ok(_) => Ok(TokenTakenView { answer: answer@, proxy_token: new_token@ }),
            Err(m) => Err(save_error(m@)),
        },
        final(cache)@ == match saved {
            Ok(_) => old(cache)@.remove(key_of(old_token@)).remove(key_of(new_token@)),
            Err(_) => old(cache)@,
        },
{
    match saved {
        Ok(_) => {
            invalidate_cache(cache, old_token);
            invalidate_cache(cache, new_token);
            Ok(TokenTaken { answer, proxy_token: new_token.to_owned() })
        },
        Err(m) => Err(RpcError::new("CONFIG_SAVE_FAILED", m)),
    }
}

/// Once a new token was taken, no access token that was kept for the old or the new one is used any
/// more.
pub proof fn law_taken_token_clears_kept_ones(
    cache: Map<Seq<char>, CachedToken>,
    old_token: Seq<char>,
    new_token: Seq<char>,
    now: u64,
)
    ensures
        ({
            let left = cache.remove(key_of(old_token)).remove(key_of(new_token));
            &&& usable_token(left, old_token, now) is None
            &&& usable_token(left, new_token, now) is None
        }),
{
}

/// A new token that is taken changes the token of one account and nothing else of the
/// configuration.
pub proof fn law_new_token_changes_one_account(
    cfg: ConfigView,
    old_token: Seq<char>,
    new_token: Seq<char>,
    fallback: usize,
    other: int,
)
    requires
        config::token_holder(cfg, old_token, fallback) is Some,
        0 <= other < cfg.accounts.len(),
        other != config::token_holder(cfg, old_token, fallback)->0,
    ensures
        ({
            let at = config::token_holder(cfg, old_token, fallback)->0;
            let accounts = cfg.accounts.update(
                at,
                AccountView { proxy_token: new_token, ..cfg.accounts[at] },
            );
            &&& 0 <= at < cfg.accounts.len()
            &&& accounts.len() == cfg.accounts.len()
            &&& accounts[other] == cfg.accounts[other]
            &&& accounts[at].proxy_token == new_token
            &&& accounts[at].device_name == cfg.accounts[at].device_name
        }),
{
    config::lemma_token_from(cfg.accounts, old_token, 0);
}

// ----- what is shown and what is changed -----

/// What is shown of an account: its number, the name of its device and the preview of its token.
proof fn lemma_account_shown(account: AccountView, index: int)
    requires
        0 <= index <= u64::MAX,
    ensures
        account_json(account, index).unsigned("index"@) == Some(index as u64),
        account_json(account, index).text("deviceName"@) == Some(account.device_name),
        account_json(account, index).text("tokenPreview"@) == Some(shown_token(account.proxy_token)),
{
    reveal_strlit("index");
    reveal_strlit("deviceName");
    reveal_strlit("tokenPreview");
    assert("index"@.len() == 5);
    assert("deviceName"@.len() == 10);
    assert("tokenPreview"@.len() == 12);
    reveal_with_fuel(crate::json::member_from, 4);
}

/// The accounts in a configuration as it is shown.
pub open spec fn accounts_shown(cfg: ConfigView) -> Seq<JsonView> {
    config_json(cfg).get("accounts"@)->0->Array_0
}

/// What is shown of a configuration: the address of the backend, the data directory, whether automatic
/// updates are on, and as many accounts as it has.
pub proof fn law_configuration_is_shown(cfg: ConfigView)
    ensures
        config_json(cfg).text("backendUrl"@) == Some(cfg.backend_url),
        config_json(cfg).text("dataDir"@) == Some(cfg.data_dir),
        config_json(cfg).flag("autoUpdate"@) == Some(cfg.update.auto_update),
        config_json(cfg).get("accounts"@) == Some(JsonView::Array(accounts_shown(cfg))),
        accounts_shown(cfg).len() == cfg.accounts.len(),
{
    reveal_strlit("backendUrl");
    reveal_strlit("dataDir");
    reveal_strlit("autoUpdate");
    reveal_strlit("accounts");
    assert("backendUrl"@.len() == 10);
    assert("dataDir"@.len() == 7);
    assert("autoUpdate"@.len() == 10);
    assert("accounts"@.len() == 8);
    assert("backendUrl"@[0] != "autoUpdate"@[0]);
    reveal_with_fuel(crate::json::member_from, 5);
}

/// The numbers that are shown name the accounts for the other commands. An entry with the number `n`
/// shows the account at that place, counted from 1, by the name of its device and the preview of its
/// token; no two entries have the same number. So deleting by that number takes out exactly the account
/// that is shown there and leaves the others in their order, and changing by that number changes
/// exactly that one.
pub proof fn law_shown_numbers_name_the_accounts(
    cfg: ConfigView,
    k: int,
    other: int,
    token: Option<Seq<char>>,
    name: Option<Seq<char>>,
)
    requires
        cfg.accounts.len() <= usize::MAX,
        0 <= k < cfg.accounts.len(),
        0 <= other < cfg.accounts.len(),
    ensures
        accounts_shown(cfg)[k].unsigned("index"@) matches Some(n) && {
            &&& 1 <= n <= cfg.accounts.len()
            &&& accounts_shown(cfg)[k].text("deviceName"@) == Some(cfg.accounts[n - 1].device_name)
            &&& accounts_shown(cfg)[k].text("tokenPreview"@) == Some(
                shown_token(cfg.accounts[n - 1].proxy_token),
            )
            &&& accounts_shown(cfg)[other].unsigned("index"@) == Some(n) ==> other == k
            &&& without_account(Ok(cfg), n as usize) matches Ok(left) && left.accounts
                == cfg.accounts.take(n - 1) + cfg.accounts.skip(n as int)
            &&& with_changed_account(Ok(cfg), n as usize, token, name) matches Ok(c)
                && c.accounts.len() == cfg.accounts.len() && c.accounts[n - 1].proxy_token == (
            match token {
                Some(t) => t,
                None => cfg.accounts[n - 1].proxy_token,
            }) && c.accounts[n - 1].device_name == (match name {
                Some(d) => d,
                None => cfg.accounts[n - 1].device_name,
            }) && (other != n - 1 ==> c.accounts[other] == cfg.accounts[other])
        },
{
    law_configuration_is_shown(cfg);
    reveal_strlit("backendUrl");
    reveal_strlit("dataDir");
    reveal_strlit("autoUpdate");
    reveal_strlit("accounts");
    assert("backendUrl"@.len() == 10);
    assert("dataDir"@.len() == 7);
    assert("autoUpdate"@.len() == 10);
    assert("accounts"@.len() == 8);
    assert("backendUrl"@[0] != "autoUpdate"@[0]);
    reveal_with_fuel(crate::json::member_from, 5);
    lemma_account_shown(cfg.accounts[k], k + 1);
    lemma_account_shown(cfg.accounts[other], other + 1);
    assert(accounts_shown(cfg) == accounts_json(cfg.accounts));
    let n = k + 1;
    assert(cfg.accounts.remove(n - 1) =~= cfg.accounts.take(n - 1) + cfg.accounts.skip(n));
}

/// What is shown of a token begins as the token does, and is no more than its first eight characters
/// with three stops behind them. A token of no more than eight characters is shown as it is.
pub proof fn law_preview_is_the_beginning(token: Seq<char>)
    ensures
        shown_token(token).len() <= 11,
        token.len() <= 8 ==> shown_token(token) == token,
        token.len() > 8 ==> shown_token(token).len() == 11 && shown_token(token).take(8)
            == token.take(8) && shown_token(token).skip(8) == seq!['.', '.', '.'],
{
    reveal_strlit("...");
    if token.len() > 8 {
        assert(shown_token(token).take(8) =~= token.take(8));
        assert(shown_token(token).skip(8) =~= seq!['.', '.', '.']);
    }
}

/// A number that names no account changes nothing and is answered with an error, and so is a
/// configuration that could not be loaded.
pub proof fn law_wrong_numbers_change_nothing(
    cfg: ConfigView,
    index: usize,
    token: Option<Seq<char>>,
    name: Option<Seq<char>>,
    reason: Seq<char>,
)
    ensures
        without_account(Ok(cfg), index) is Err <==> index == 0 || index > cfg.accounts.len(),
        with_changed_account(Ok(cfg), index, token, name) is Err <==> index == 0 || index
            > cfg.accounts.len(),
        without_account(Ok(cfg), index) matches Err(e) ==> e.code == "CONFIG_SAVE_FAILED"@,
        with_changed_account(Ok(cfg), index, token, name) matches Err(e) ==> e.code
            == "CONFIG_SAVE_FAILED"@,
        without_account(Err(reason), index) matches Err(e) && e.code == "CONFIG_SAVE_FAILED"@
            && e.message == reason,
        with_changed_account(Err(reason), index, token, name) matches Err(e) && e.code
            == "CONFIG_SAVE_FAILED"@ && e.message == reason,
{
}

/// Deleting and changing an account, and changing the address of the backend, leave everything else of
/// the configuration as it was.
pub proof fn law_changes_touch_nothing_else(
    cfg: ConfigView,
    index: usize,
    token: Option<Seq<char>>,
    name: Option<Seq<char>>,
    url: Seq<char>,
)
    ensures
        without_account(Ok(cfg), index) matches Ok(c) ==> c.backend_url == cfg.backend_url
            && c.data_dir == cfg.data_dir && c.update == cfg.update && c.log == cfg.log
            && c.accounts.len() + 1 == cfg.accounts.len(),
        with_changed_account(Ok(cfg), index, token, name) matches Ok(c) ==> c.backend_url
            == cfg.backend_url && c.data_dir == cfg.data_dir && c.update == cfg.update && c.log
            == cfg.log && c.accounts.len() == cfg.accounts.len(),
        with_backend(Ok(cfg), url) matches Ok(c) ==> c.backend_url == url && c.data_dir
            == cfg.data_dir && c.update == cfg.update && c.log == cfg.log && c.accounts
            == cfg.accounts,
        with_backend(Ok(cfg), url) is Ok <==> exists|i: int|
            0 <= i < url.len() && !crate::text::is_space(#[trigger] url[i]),
        with_backend(Ok(cfg), url) matches Err(e) ==> e.code == "INVALID_PARAMS"@,
{
    crate::text::law_trimming_keeps_the_middle(url);
}

/// An account is added behind the others, with the token and the name that were given, where the token
/// is not blank and no account has it already. Everything else stays.
pub proof fn law_added_account_comes_last(
    cfg: ConfigView,
    token: Seq<char>,
    name: Seq<char>,
    reason: Seq<char>,
)
    ensures
        ({
            let blank = forall|i: int|
                0 <= i < token.len() ==> crate::text::is_space(#[trigger] token[i]);
            let known = exists|i: int|
                0 <= i < cfg.accounts.len() && #[trigger] cfg.accounts[i].proxy_token == token;
            let res = with_account(Ok(cfg), token, name);
            &&& res is Ok <==> !blank && !known
            &&& res matches Ok(c) ==> {
                &&& c.accounts.len() == cfg.accounts.len() + 1
                &&& c.accounts.last().proxy_token == token
                &&& c.accounts.last().device_name == name
                &&& c.accounts.drop_last() == cfg.accounts
                &&& c.backend_url == cfg.backend_url && c.data_dir == cfg.data_dir
                &&& c.update == cfg.update && c.log == cfg.log
            }
            &&& blank ==> (res matches Err(e) && e.code == "INVALID_PARAMS"@)
            &&& !blank && known ==> (res matches Err(e) && e.code == "CONFIG_SAVE_FAILED"@)
            &&& !blank ==> (with_account(Err(reason), token, name) matches Err(e) && e.code
                == "CONFIG_SAVE_FAILED"@ && e.message == reason)
        }),
{
    crate::text::law_trimming_keeps_the_middle(token);
    config::lemma_token_from(cfg.accounts, token, 0);
    let grown = cfg.accounts.push(AccountView { proxy_token: token, device_name: name });
    assert(grown.drop_last() =~= cfg.accounts);
}

/// An account that was added can be deleted by its number, which gives back the configuration that was
/// there before.
pub proof fn law_adding_is_undone_by_deleting(cfg: ConfigView, token: Seq<char>, name: Seq<char>)
    requires
        cfg.accounts.len() < usize::MAX,
        with_account(Ok(cfg), token, name) is Ok,
    ensures
        without_account(
            Ok(with_account(Ok(cfg), token, name)->Ok_0),
            (cfg.accounts.len() + 1) as usize,
        ) == Ok::<ConfigView, RpcErrorView>(cfg),
{
    let grown = with_account(Ok(cfg), token, name)->Ok_0;
    assert(grown.accounts.remove(cfg.accounts.len() as int) =~= cfg.accounts);
}

/// A new token is what was given without the white space around it. A blank one is refused, and so is
/// the one that is in use.
pub proof fn law_new_token_is_new(given: Seq<char>, current: Seq<char>)
    ensures
        new_token_of(given, current) matches Ok(t) ==> t.len() > 0 && t != current && t == trimmed(
            given,
        ),
        new_token_of(given, current) is Err <==> trimmed(given) == current || forall|i: int|
            0 <= i < given.len() ==> crate::text::is_space(#[trigger] given[i]),
        new_token_of(given, current) matches Err(e) ==> e.code == "INVALID_PARAMS"@ || e.code
            == "TOKEN_UNCHANGED"@,
        trimmed(given).len() > 0 && trimmed(given) == current ==> (new_token_of(
            given,
            current,
        ) matches Err(e) && e.code == "TOKEN_UNCHANGED"@),
{
    crate::text::law_trimming_keeps_the_middle(given);
}

/// The connections count from 0 and the accounts from 1: the connection that is named by a number
/// belongs to the account with the next one. A name that is no number belongs to none.
pub proof fn law_connection_belongs_to_its_account(n: nat, name: Seq<char>)
    requires
        n <= usize::MAX,
    ensures
        fallback_of(crate::text::decimal(n)) == n + 1,
        parsed(name, usize::MAX as nat) is None ==> fallback_of(name) == 0,
{
    crate::text::law_decimal_round_trip(n, usize::MAX as nat);
}

/// A new token that the backend grants goes to the first account that has the old one, and where none
/// has it to the account of the connection. That account keeps its name, and nothing else of the
/// configuration changes.
pub proof fn law_new_token_goes_to_its_account(
    cfg: ConfigView,
    old_token: Seq<char>,
    new_token: Seq<char>,
    connection: nat,
    at: int,
    other: int,
)
    requires
        connection < usize::MAX,
        0 <= at < cfg.accounts.len(),
        0 <= other < cfg.accounts.len(),
        other != at,
        ({
            let holders = exists|i: int|
                0 <= i < cfg.accounts.len() && #[trigger] cfg.accounts[i].proxy_token == old_token;
            &&& holders ==> cfg.accounts[at].proxy_token == old_token && forall|i: int|
                0 <= i < at ==> #[trigger] cfg.accounts[i].proxy_token != old_token
            &&& !holders ==> at == connection
        }),
    ensures
        with_new_token(
            Ok(cfg),
            old_token,
            new_token,
            fallback_of(crate::text::decimal(connection)),
            Ok(()),
        ) matches Ok(c) && {
            &&& c.accounts.len() == cfg.accounts.len()
            &&& c.accounts[at].proxy_token == new_token
            &&& c.accounts[at].device_name == cfg.accounts[at].device_name
            &&& c.accounts[other] == cfg.accounts[other]
            &&& c.backend_url == cfg.backend_url && c.data_dir == cfg.data_dir
            &&& c.update == cfg.update && c.log == cfg.log
        },
{
    law_connection_belongs_to_its_account(connection, Seq::empty());
    config::lemma_token_from(cfg.accounts, old_token, 0);
    match config::token_from(cfg.accounts, old_token, 0) {
        Some(k) => {
            if k < at {
                assert(cfg.accounts[k].proxy_token != old_token);
            }
        },
        None => {},
    }
}

/// A new token that the backend refuses is not taken, and the refusal is answered with its own code.
/// Where no account has the old token and the connection has none either, it is an error as well.
pub proof fn law_refused_token_is_not_taken(
    loaded: Result<ConfigView, Seq<char>>,
    old_token: Seq<char>,
    new_token: Seq<char>,
    fallback: int,
    refusal: RefreshErrorView,
)
    ensures
        with_new_token(loaded, old_token, new_token, fallback, Err(refusal)) matches Err(e) && e.code
            == refusal.code,
        loaded matches Err(reason) ==> (with_new_token(
            loaded,
            old_token,
            new_token,
            fallback,
            Ok(()),
        ) matches Err(e) && e.code == "CONFIG_SAVE_FAILED"@ && e.message == reason),
{
}

/// The answer to a change says that it succeeded, with the message.
pub proof fn law_change_is_answered(message: Seq<char>)
    ensures
        changed_json(message).flag("success"@) == Some(true),
        changed_json(message).text("message"@) == Some(message),
{
    reveal_strlit("success");
    reveal_strlit("message");
    assert("success"@.len() == 7);
    assert("message"@.len() == 7);
    assert("success"@[0] != "message"@[0]);
    reveal_with_fuel(crate::json::member_from, 3);
}

} // verus!
