//! The configuration of the daemon and the changes that can be made to it.
use crate::ident::{fresh_uuid, is_uuid_v4};
use crate::text::{
    decimal, decimal_text, is_blank, join_path, opt_str, opt_view, path_join, same_text, trim, trimmed,
};
use vstd::prelude::*;
use vstd::string::*;

verus! {

/// The configuration of the daemon.
#[derive(Debug)]
pub struct Config {
    pub server: ServerConfig,
    pub update: UpdateConfig,
    pub log: LogConfig,
    pub accounts: Vec<AccountConfig>,
}

/// Where the backend is, and where data is kept.
#[derive(Debug)]
pub struct ServerConfig {
    /// The WebSocket address of the backend.
    pub backend_url: String,
    /// The data directory.
    pub data_dir: String,
}

/// How updates are handled.
#[derive(Clone, Copy, Debug, PartialEq, Eq, Structural)]
pub struct UpdateConfig {
    /// Whether a new version is installed when the backend announces it.
    pub auto_update: bool,
}

/// How logs are kept.
#[derive(Clone, Copy, Debug, PartialEq, Eq, Structural)]
pub struct LogConfig {
    /// For how many days logs are kept, 0 for ever.
    pub retention_days: u64,
}

/// One account.
#[derive(Debug)]
pub struct AccountConfig {
    /// The token of the account.
    pub proxy_token: String,
    /// The name under which the device is shown.
    pub device_name: String,
}

/// The model of [`AccountConfig`].
pub struct AccountView {
    pub proxy_token: Seq<char>,
    pub device_name: Seq<char>,
}

/// The model of [`Config`].
pub struct ConfigView {
    pub backend_url: Seq<char>,
    pub data_dir: Seq<char>,
    pub update: UpdateConfig,
    pub log: LogConfig,
    pub accounts: Seq<AccountView>,
}

impl View for AccountConfig {
    type V = AccountView;

    open spec fn view(&self) -> AccountView {
        AccountView { proxy_token: self.proxy_token@, device_name: self.device_name@ }
    }
}

/// The models of accounts.
pub open spec fn account_views(accounts: Seq<AccountConfig>) -> Seq<AccountView> {
    accounts.map_values(|a: AccountConfig| a@)
}

impl View for Config {
    type V = ConfigView;

    open spec fn view(&self) -> ConfigView {
        ConfigView {
            backend_url: self.server.backend_url@,
            data_dir: self.server.data_dir@,
            update: self.update,
            log: self.log,
            accounts: account_views(self.accounts@),
        }
    }
}

impl Default for UpdateConfig {
    fn default() -> (res: UpdateConfig)
        ensures
            res == (UpdateConfig { auto_update: false }),
    {
        UpdateConfig { auto_update: false }
    }
}

/// For how many days logs are kept where nothing is said.
pub fn default_retention_days() -> (res: u64)
    ensures
        res == 7,
{
    7
}

impl Default for LogConfig {
    fn default() -> (res: LogConfig)
        ensures
            res == (LogConfig { retention_days: 7 }),
    {
        LogConfig { retention_days: default_retention_days() }
    }
}

/// The data directory where nothing is said.
pub fn default_data_dir() -> (res: String)
    ensures
        res@ == "/var/lib/chmlfrp-toolbox-daemon"@,
{
    "/var/lib/chmlfrp-toolbox-daemon".to_owned()
}

/// The path of the configuration file where nothing is said.
pub fn default_config_path() -> (res: String)
    ensures
        res@ == "/etc/chmlfrp-toolbox-daemon/config.toml"@,
{
    "/etc/chmlfrp-toolbox-daemon/config.toml".to_owned()
}

// ----- what makes a configuration valid -----

/// Whether the token of an account is blank.
pub open spec fn has_blank_token(account: AccountView) -> bool {
    trimmed(account.proxy_token).len() == 0
}

/// The position of the first account from `i` on that has a blank token, if there is one.
pub open spec fn blank_from(accounts: Seq<AccountView>, i: int) -> Option<int>
    decreases accounts.len() - i,
{
    if i < 0 || i >= accounts.len() {
        None
    } else if has_blank_token(accounts[i]) {
        Some(i)
    } else {
        blank_from(accounts, i + 1)
    }
}

/// The complaint about a configuration, if there is one: it has no account, or one has a blank
/// token.
pub open spec fn config_complaint(cfg: ConfigView) -> Option<Seq<char>> {
    if cfg.accounts.len() == 0 {
        Some("配置文件中未配置任何账号，请在 [[accounts]] 添加 proxy_token"@)
    } else {
        match blank_from(cfg.accounts, 0) {
            Some(i) => Some("第 "@ + decimal((i + 1) as nat) + " 个账号的 proxy_token 为空"@),
            None => None,
        }
    }
}

/// Whether a configuration can be used.
pub open spec fn is_valid(cfg: ConfigView) -> bool {
    config_complaint(cfg) is None
}

/// A configuration that was read from a file, where it can be used. The file is not there, or could
/// not be read, for the reason given.
pub fn load_config(path: &str, exists: bool, read: Result<Config, String>) -> (res: Result<
    Config,
    String,
>)
    ensures
        match res {
            Ok(cfg) => exists && read == Ok::<Config, String>(cfg) && is_valid(cfg@),
            Err(e) => if !exists {
                e@ == "配置文件不存在: "@ + path@
                    + "，请运行 `chmlfrp-toolbox-daemon init-config` 生成模板"@
            } else {
                match read {
                    Err(m) => e@ == m@,
                    Ok(cfg) => config_complaint(cfg@) == Some(e@),
                }
            },
        },
{
    if !exists {
        return Err(
            "配置文件不存在: ".to_owned().concat(path).concat(
                "，请运行 `chmlfrp-toolbox-daemon init-config` 生成模板",
            ),
        );
    }
    let cfg = match read {
        Ok(c) => c,
        Err(m) => return Err(m),
    };
    if cfg.accounts.len() == 0 {
        return Err("配置文件中未配置任何账号，请在 [[accounts]] 添加 proxy_token".to_owned());
    }
    let n: usize = cfg.accounts.len();
    let mut i: usize = 0;
    while i < n
        invariant
            n == cfg.accounts@.len(),
            i <= n,
            read == Ok::<Config, String>(cfg),
            exists,
            cfg@.accounts.len() > 0,
            blank_from(cfg@.accounts, 0) == blank_from(cfg@.accounts, i as int),
        decreases n - i,
    {
        assert(cfg@.accounts[i as int] == cfg.accounts@[i as int]@);
        if is_blank(cfg.accounts[i].proxy_token.as_str()) {
            let number = decimal_text((i + 1) as u64);
            return Err(
                "第 ".to_owned().concat(number.as_str()).concat(" 个账号的 proxy_token 为空"),
            );
        }
        i = i + 1;
    }
    Ok(cfg)
}

/// A configuration can be used exactly when it has an account and no account has a blank token.
pub proof fn law_valid_config(cfg: ConfigView)
    ensures
        is_valid(cfg) <==> cfg.accounts.len() > 0 && forall|i: int|
            0 <= i < cfg.accounts.len() ==> !has_blank_token(#[trigger] cfg.accounts[i]),
{
    lemma_blank_from(cfg.accounts, 0);
}

/// The position is that of the first blank token.
proof fn lemma_blank_from(accounts: Seq<AccountView>, i: int)
    requires
        0 <= i <= accounts.len(),
    ensures
        match blank_from(accounts, i) {
            Some(k) => i <= k < accounts.len() && has_blank_token(accounts[k]),
            None => forall|k: int|
                i <= k < accounts.len() ==> !has_blank_token(#[trigger] accounts[k]),
        },
    decreases accounts.len() - i,
{
    if i < accounts.len() && !has_blank_token(accounts[i]) {
        lemma_blank_from(accounts, i + 1);
    }
}

// ----- changes -----

/// Whether an account from position `i` on has the token.
pub open spec fn token_from(accounts: Seq<AccountView>, token: Seq<char>, i: int) -> Option<int>
    decreases accounts.len() - i,
{
    if i < 0 || i >= accounts.len() {
        None
    } else if accounts[i].proxy_token == token {
        Some(i)
    } else {
        token_from(accounts, token, i + 1)
    }
}

/// The position of the first account with the token.
fn find_token(accounts: &Vec<AccountConfig>, token: &str) -> (res: Option<usize>)
    ensures
        match res {
            Some(i) => token_from(account_views(accounts@), token@, 0) == Some(i as int) && i
                < accounts@.len(),
            None => token_from(account_views(accounts@), token@, 0) is None,
        },
{
    let mut i: usize = 0;
    while i < accounts.len()
        invariant
            i <= accounts@.len(),
            token_from(account_views(accounts@), token@, 0) == token_from(
                account_views(accounts@),
                token@,
                i as int,
            ),
        decreases accounts@.len() - i,
    {
        assert(account_views(accounts@)[i as int] == accounts@[i as int]@);
        if same_text(accounts[i].proxy_token.as_str(), token) {
            return Some(i);
        }
        i = i + 1;
    }
    None
}

/// A configuration with other accounts.
pub open spec fn with_accounts(cfg: ConfigView, accounts: Seq<AccountView>) -> ConfigView {
    ConfigView { accounts, ..cfg }
}

/// Adds an account behind the others. A token that is there already is refused.
pub fn add_account(cfg: &mut Config, token: String, name: String) -> (res: Result<(), String>)
    ensures
        match res {
            Ok(_) => {
                &&& token_from(old(cfg)@.accounts, token@, 0) is None
                &&& final(cfg)@ == with_accounts(
                    old(cfg)@,
                    old(cfg)@.accounts.push(
                        AccountView { proxy_token: token@, device_name: name@ },
                    ),
                )
            },
            Err(e) => {
                &&& token_from(old(cfg)@.accounts, token@, 0) is Some
                &&& e@ == "该 proxyToken 已存在"@
                &&& final(cfg)@ == old(cfg)@
            },
        },
{
    if find_token(&cfg.accounts, token.as_str()).is_some() {
        return Err("该 proxyToken 已存在".to_owned());
    }
    let account = AccountConfig { proxy_token: token, device_name: name };
    cfg.accounts.push(account);
    assert(cfg@.accounts =~= old(cfg)@.accounts.push(account@));
    Ok(())
}

/// The complaint about a number, counted from 1, that no account has.
pub open spec fn index_complaint(index: usize, count: nat) -> Seq<char> {
    "账号序号无效: "@ + decimal(index as nat) + "（共 "@ + decimal(count) + " 个账号）"@
}

/// Whether an account has the number, counted from 1.
pub open spec fn has_index(cfg: ConfigView, index: usize) -> bool {
    1 <= index <= cfg.accounts.len()
}

/// The complaint about a number that no account has.
fn make_index_complaint(index: usize, count: usize) -> (res: String)
    ensures
        res@ == index_complaint(index, count as nat),
{
    let shown = decimal_text(index as u64);
    let total = decimal_text(count as u64);
    "账号序号无效: ".to_owned().concat(shown.as_str()).concat("（共 ").concat(total.as_str()).concat(
        " 个账号）",
    )
}

/// What is given, or what was there.
pub open spec fn given_or(given: Option<Seq<char>>, kept: Seq<char>) -> Seq<char> {
    match given {
        Some(s) => s,
        None => kept,
    }
}

/// Changes the token and the name of an account, as far as they are given. The account is named by
/// its number, counted from 1.
pub fn modify_account(cfg: &mut Config, index: usize, token: Option<String>, name: Option<String>) -> (res:
    Result<(), String>)
    ensures
        match res {
            Ok(_) => {
                &&& has_index(old(cfg)@, index)
                &&& final(cfg)@ == with_accounts(
                    old(cfg)@,
                    old(cfg)@.accounts.update(
                        index - 1,
                        AccountView {
                            proxy_token: given_or(
                                opt_view(token),
                                old(cfg)@.accounts[index - 1].proxy_token,
                            ),
                            device_name: given_or(
                                opt_view(name),
                                old(cfg)@.accounts[index - 1].device_name,
                            ),
                        },
                    ),
                )
            },
            Err(e) => {
                &&& !has_index(old(cfg)@, index)
                &&& e@ == index_complaint(index, old(cfg)@.accounts.len())
                &&& final(cfg)@ == old(cfg)@
            },
        },
{
    assert(cfg@.accounts.len() == cfg.accounts@.len());
    if index == 0 || index > cfg.accounts.len() {
        return Err(make_index_complaint(index, cfg.accounts.len()));
    }
    let proxy_token = match token {
        Some(t) => t,
        None => cfg.accounts[index - 1].proxy_token.as_str().to_owned(),
    };
    let device_name = match name {
        Some(n) => n,
        None => cfg.accounts[index - 1].device_name.as_str().to_owned(),
    };
    let account = AccountConfig { proxy_token, device_name };
    cfg.accounts.set(index - 1, account);
    assert(cfg@.accounts =~= old(cfg)@.accounts.update(index - 1, account@));
    Ok(())
}

/// Removes an account, which is named by its number, counted from 1.
pub fn delete_account(cfg: &mut Config, index: usize) -> (res: Result<(), String>)
    ensures
        match res {
            Ok(_) => {
                &&& has_index(old(cfg)@, index)
                &&& final(cfg)@ == with_accounts(old(cfg)@, old(cfg)@.accounts.remove(index - 1))
            },
            Err(e) => {
                &&& !has_index(old(cfg)@, index)
                &&& e@ == index_complaint(index, old(cfg)@.accounts.len())
                &&& final(cfg)@ == old(cfg)@
            },
        },
{
    assert(cfg@.accounts.len() == cfg.accounts@.len());
    if index == 0 || index > cfg.accounts.len() {
        return Err(make_index_complaint(index, cfg.accounts.len()));
    }
    let _ = cfg.accounts.remove(index - 1);
    assert(cfg@.accounts =~= old(cfg)@.accounts.remove(index - 1));
    Ok(())
}

/// The account whose token is replaced: the first that has the old one, else the one with the
/// number, counted from 1, if there is one.
pub open spec fn token_holder(cfg: ConfigView, old_token: Seq<char>, fallback_index: usize) -> Option<
    int,
> {
    match token_from(cfg.accounts, old_token, 0) {
        Some(i) => Some(i),
        None => if has_index(cfg, fallback_index) {
            Some(fallback_index - 1)
        } else {
            None
        },
    }
}

/// Replaces the token of an account: of the first that has the old one, else of the one with the
/// number, counted from 1.
pub fn replace_account_token(
    cfg: &mut Config,
    old_token: &str,
    new_token: &str,
    fallback_index: usize,
) -> (res: Result<(), String>)
    ensures
        match token_holder(old(cfg)@, old_token@, fallback_index) {
            Some(i) => {
                &&& res is Ok
                &&& final(cfg)@ == with_accounts(
                    old(cfg)@,
                    old(cfg)@.accounts.update(
                        i,
                        AccountView { proxy_token: new_token@, ..old(cfg)@.accounts[i] },
                    ),
                )
            },
            None => {
                &&& res matches Err(e) && e@ == index_complaint(
                    fallback_index,
                    old(cfg)@.accounts.len(),
                )
                &&& final(cfg)@ == old(cfg)@
            },
        },
{
    assert(cfg@.accounts.len() == cfg.accounts@.len());
    let at: usize = match find_token(&cfg.accounts, old_token) {
        Some(i) => i,
        None => {
            if fallback_index == 0 || fallback_index > cfg.accounts.len() {
                return Err(make_index_complaint(fallback_index, cfg.accounts.len()));
            }
            fallback_index - 1
        },
    };
    let account = AccountConfig {
        proxy_token: new_token.to_owned(),
        device_name: cfg.accounts[at].device_name.as_str().to_owned(),
    };
    cfg.accounts.set(at, account);
    assert(cfg@.accounts =~= old(cfg)@.accounts.update(at as int, account@));
    Ok(())
}

/// Changes the address of the backend.
pub fn set_backend_url(cfg: &mut Config, url: String)
    ensures
        final(cfg)@ == (ConfigView { backend_url: url@, ..old(cfg)@ }),
{
    cfg.server.backend_url = url;
}

/// Switches automatic updates on or off.
pub fn set_auto_update(cfg: &mut Config, enabled: bool)
    ensures
        final(cfg)@ == (ConfigView { update: UpdateConfig { auto_update: enabled }, ..old(cfg)@ }),
{
    cfg.update.auto_update = enabled;
}

/// An account that was just added is found by its token and is the last; removing it again gives
/// back the accounts that were there.
pub proof fn law_added_account_can_be_removed(accounts: Seq<AccountView>, account: AccountView)
    requires
        token_from(accounts, account.proxy_token, 0) is None,
    ensures
        token_from(accounts.push(account), account.proxy_token, 0) == Some(accounts.len() as int),
        accounts.push(account).remove(accounts.len() as int) == accounts,
{
    lemma_token_from(accounts, account.proxy_token, 0);
    lemma_token_from(accounts.push(account), account.proxy_token, 0);
    let all = accounts.push(account);
    assert(all[accounts.len() as int] == account);
    match token_from(all, account.proxy_token, 0) {
        Some(k) => {
            if k < accounts.len() {
                assert(all[k] == accounts[k]);
            }
        },
        None => {},
    }
    assert(all.remove(accounts.len() as int) =~= accounts);
}

/// The position is that of the first account with the token.
pub proof fn lemma_token_from(accounts: Seq<AccountView>, token: Seq<char>, i: int)
    requires
        0 <= i <= accounts.len(),
    ensures
        match token_from(accounts, token, i) {
            Some(k) => {
                &&& i <= k < accounts.len()
                &&& accounts[k].proxy_token == token
                &&& forall|j: int| i <= j < k ==> #[trigger] accounts[j].proxy_token != token
            },
            None => forall|j: int|
                i <= j < accounts.len() ==> #[trigger] accounts[j].proxy_token != token,
        },
    decreases accounts.len() - i,
{
    if i < accounts.len() && accounts[i].proxy_token != token {
        lemma_token_from(accounts, token, i + 1);
    }
}

/// No token occurs twice.
pub open spec fn tokens_distinct(accounts: Seq<AccountView>) -> bool {
    forall|i: int, j: int|
        0 <= i < accounts.len() && 0 <= j < accounts.len() && i != j ==> #[trigger] accounts[i].proxy_token
            != #[trigger] accounts[j].proxy_token
}

/// Adding an account never brings in a token for the second time, and removing one keeps the tokens
/// distinct and leaves the other accounts in their order.
pub proof fn law_accounts_stay_distinct(accounts: Seq<AccountView>, account: AccountView, at: int)
    requires
        tokens_distinct(accounts),
    ensures
        token_from(accounts, account.proxy_token, 0) is None ==> tokens_distinct(
            accounts.push(account),
        ),
        0 <= at < accounts.len() ==> tokens_distinct(accounts.remove(at)),
        0 <= at < accounts.len() ==> token_from(accounts.remove(at), accounts[at].proxy_token, 0)
            is None,
{
    lemma_token_from(accounts, account.proxy_token, 0);
    if 0 <= at < accounts.len() {
        let rest = accounts.remove(at);
        lemma_token_from(rest, accounts[at].proxy_token, 0);
        assert forall|i: int| 0 <= i < rest.len() implies #[trigger] rest[i] == accounts[if i < at {
            i
        } else {
            i + 1
        }] by {}
    }
}

// ----- files -----

/// The head of a configuration file that the daemon wrote.
pub fn saved_header() -> (res: &'static str)
    ensures
        res@ == "# ChmlFrp 工具箱 Daemon 配置文件\n# 由远程管理自动生成/修改\n\n"@,
{
    "# ChmlFrp 工具箱 Daemon 配置文件\n# 由远程管理自动生成/修改\n\n"
}

/// The head of a configuration file that is to be filled in.
pub fn template_header() -> (res: &'static str)
    ensures
        res@
            == "# ChmlFrp 工具箱 Daemon 配置文件\n# 请将 proxy_token 替换为你的实际代理令牌\n# 多租户：添加多个 [[accounts]] 即可支持多个账号\n\n"@,
{
    "# ChmlFrp 工具箱 Daemon 配置文件\n# 请将 proxy_token 替换为你的实际代理令牌\n# 多租户：添加多个 [[accounts]] 即可支持多个账号\n\n"
}

/// The configuration that is to be filled in.
pub fn generate_template() -> (res: Config)
    ensures
        res@ == (ConfigView {
            backend_url: "wss://api.cct.zdzz.top"@,
            data_dir: "/var/lib/chmlfrp-toolbox-daemon"@,
            update: UpdateConfig { auto_update: false },
            log: LogConfig { retention_days: 7 },
            accounts: seq![
                AccountView {
                    proxy_token: "在此填入你的_proxyToken"@,
                    device_name: "我的服务器"@,
                },
            ],
        }),
{
    let mut accounts: Vec<AccountConfig> = Vec::new();
    accounts.push(
        AccountConfig {
            proxy_token: "在此填入你的_proxyToken".to_owned(),
            device_name: "我的服务器".to_owned(),
        },
    );
    let cfg = Config {
        server: ServerConfig {
            backend_url: "wss://api.cct.zdzz.top".to_owned(),
            data_dir: default_data_dir(),
        },
        update: UpdateConfig { auto_update: false },
        log: LogConfig { retention_days: default_retention_days() },
        accounts,
    };
    assert(cfg@.accounts =~= seq![
        AccountView { proxy_token: "在此填入你的_proxyToken"@, device_name: "我的服务器"@ },
    ]);
    cfg
}

/// The file in the data directory that says whether automatic updates are on.
pub fn auto_update_override_path(data_dir: &str) -> (res: String)
    ensures
        res@ == path_join(data_dir@, "update_settings.json"@),
{
    join_path(data_dir, "update_settings.json")
}

/// What the daemon writes to that file.
pub open spec fn override_content(enabled: bool) -> Seq<char> {
    if enabled {
        "{\"auto_update\":true}"@
    } else {
        "{\"auto_update\":false}"@
    }
}

/// What the daemon writes to that file.
pub fn override_text(enabled: bool) -> (res: &'static str)
    ensures
        res@ == override_content(enabled),
{
    if enabled {
        "{\"auto_update\":true}"
    } else {
        "{\"auto_update\":false}"
    }
}

/// What that file says, as far as its content and a general reader of JSON tell.
pub open spec fn override_in(content: Option<Seq<char>>, read: Option<bool>) -> Option<bool> {
    match content {
        Some(text) => if text == override_content(true) {
            Some(true)
        } else if text == override_content(false) {
            Some(false)
        } else {
            read
        },
        None => None,
    }
}

/// What that file says: as the daemon writes it, or, where somebody else wrote it, as a general
/// reader of JSON understands it. Without a file nothing is said.
pub fn load_auto_update_override(content: Option<&str>, read: Option<bool>) -> (res: Option<bool>)
    ensures
        res == override_in(opt_str(content), read),
{
    match content {
        Some(text) => {
            if same_text(text, override_text(true)) {
                Some(true)
            } else if same_text(text, override_text(false)) {
                Some(false)
            } else {
                read
            }
        },
        None => None,
    }
}

/// Whether automatic updates are on.
pub open spec fn effective(overriding: Option<bool>, configured: Option<bool>) -> bool {
    match overriding {
        Some(b) => b,
        None => match configured {
            Some(b) => b,
            None => false,
        },
    }
}

/// What was saved in that file is in force, whatever the configuration says, and also where there is
/// none. Without that file the configuration decides, and without either updates are off.
pub proof fn law_saved_override_is_in_force(
    enabled: bool,
    read: Option<bool>,
    configured: Option<bool>,
)
    ensures
        effective(override_in(Some(override_content(enabled)), read), configured) == enabled,
        effective(override_in(None, read), configured) == (configured == Some(true)),
{
    reveal_strlit("{\"auto_update\":true}");
    reveal_strlit("{\"auto_update\":false}");
    assert(override_content(true).len() != override_content(false).len());
}

/// Whether automatic updates are on: what the file in the data directory says comes before what the
/// configuration says, and where neither can be read they are off.
pub fn get_effective_auto_update(overriding: Option<bool>, configured: Option<bool>) -> (res: bool)
    ensures
        res == effective(overriding, configured),
{
    match overriding {
        Some(b) => b,
        None => configured.unwrap_or(false),
    }
}

/// The identity of this device.
#[derive(Debug)]
pub enum DeviceId {
    /// It was there already.
    Kept(String),
    /// It is new and has to be saved.
    New(String),
}

/// The file in the data directory that holds the identity of this device.
pub fn device_id_path(data_dir: &str) -> (res: String)
    ensures
        res@ == path_join(data_dir@, "device_id"@),
{
    join_path(data_dir, "device_id")
}

/// The identity of this device: what the file holds, where that is not blank, else a new one.
pub fn get_or_create_device_id(saved: Option<&str>) -> (res: DeviceId)
    ensures
        match res {
            DeviceId::Kept(id) => saved matches Some(s) && id@ == trimmed(s@) && id@.len() > 0,
            DeviceId::New(id) => {
                &&& is_uuid_v4(id@)
                &&& saved matches Some(s) ==> trimmed(s@).len() == 0
            },
        },
{
    if let Some(s) = saved {
        let id = trim(s);
        if !id.as_str().is_empty() {
            return DeviceId::Kept(id);
        }
    }
    DeviceId::New(fresh_uuid())
}

// ----- what the rules come to -----

/// A configuration can be used exactly where it has an account and the token of every account holds
/// more than white space. Of one that cannot, the first account without a token is named by its
/// number, counted from 1.
pub proof fn law_every_account_needs_a_token(cfg: ConfigView, at: int)
    ensures
        ({
            let blank = |i: int|
                forall|k: int|
                    0 <= k < cfg.accounts[i].proxy_token.len() ==> crate::text::is_space(
                        #[trigger] cfg.accounts[i].proxy_token[k],
                    );
            &&& is_valid(cfg) ==> cfg.accounts.len() > 0 && (0 <= at < cfg.accounts.len() ==> !blank(
                at,
            ))
            &&& cfg.accounts.len() == 0 ==> !is_valid(cfg)
            &&& 0 <= at < cfg.accounts.len() && blank(at) && (forall|j: int|
                0 <= j < at ==> !#[trigger] blank(j)) ==> (config_complaint(cfg) matches Some(m)
                && crate::text::has_text(m, decimal((at + 1) as nat)))
        }),
{
    lemma_blank_from(cfg.accounts, 0);
    let blank = |i: int|
        forall|k: int|
            0 <= k < cfg.accounts[i].proxy_token.len() ==> crate::text::is_space(
                #[trigger] cfg.accounts[i].proxy_token[k],
            );
    assert forall|i: int| 0 <= i < cfg.accounts.len() implies #[trigger] blank(i)
        == has_blank_token(cfg.accounts[i]) by {
        crate::text::law_trimming_keeps_the_middle(cfg.accounts[i].proxy_token);
    }
    if 0 <= at < cfg.accounts.len() && blank(at) && (forall|j: int|
        0 <= j < at ==> !#[trigger] blank(j)) {
        assert(has_blank_token(cfg.accounts[at]));
        lemma_first_blank(cfg.accounts, 0, at, blank);
        let number = decimal((at + 1) as nat);
        let m = "第 "@ + number + " 个账号的 proxy_token 为空"@;
        let i = "第 "@.len() as int;
        assert(m.subrange(i, i + number.len()) =~= number);
        assert(crate::text::occurs_at(m, number, i));
    }
    if is_valid(cfg) && 0 <= at < cfg.accounts.len() {
        assert(!has_blank_token(cfg.accounts[at]));
        assert(blank(at) == has_blank_token(cfg.accounts[at]));
    }
}

/// The first blank token is found at its place.
proof fn lemma_first_blank(accounts: Seq<AccountView>, i: int, at: int, blank: spec_fn(int) -> bool)
    requires
        0 <= i <= at < accounts.len(),
        has_blank_token(accounts[at]),
        forall|j: int| 0 <= j < accounts.len() ==> #[trigger] blank(j) == has_blank_token(accounts[j]),
        forall|j: int| 0 <= j < at ==> !#[trigger] blank(j),
    ensures
        blank_from(accounts, i) == Some(at),
    decreases at - i,
{
    if i < at {
        assert(!blank(i));
        lemma_first_blank(accounts, i + 1, at, blank);
    }
}

/// What is given replaces what was there, and nothing given leaves it.
pub proof fn law_only_what_is_given_changes(given: Seq<char>, kept: Seq<char>)
    ensures
        given_or(Some(given), kept) == given,
        given_or(None, kept) == kept,
{
}

/// A complaint about a number names the number and how many accounts there are.
pub proof fn law_complaint_names_the_number(index: usize, count: nat)
    ensures
        crate::text::has_text(index_complaint(index, count), decimal(index as nat)),
        crate::text::has_text(index_complaint(index, count), decimal(count)),
{
    let m = index_complaint(index, count);
    let (x, y) = (decimal(index as nat), decimal(count));
    let i = "账号序号无效: "@.len() as int;
    let j = i + x.len() + "（共 "@.len();
    assert(m.subrange(i, i + x.len()) =~= x);
    assert(m.subrange(j, j + y.len()) =~= y);
    assert(crate::text::occurs_at(m, x, i));
    assert(crate::text::occurs_at(m, y, j));
}

/// Where a general reader understands the file that says whether updates are on, that is what it says,
/// unless the daemon wrote it; and a file that it does not understand says nothing.
pub proof fn law_other_files_are_read_as_json(content: Seq<char>, read: Option<bool>)
    ensures
        content != "{\"auto_update\":true}"@ && content != "{\"auto_update\":false}"@
            ==> override_in(Some(content), read) == read,
{
}

/// What is written says what was chosen: `true` where updates were switched on, and `false` where they
/// were switched off, as the only member of an object.
pub proof fn law_choice_is_written_out(enabled: bool)
    ensures
        override_content(enabled).len() > 15,
        override_content(enabled).take(15) == "{\"auto_update\":"@,
        override_content(enabled).skip(15) == if enabled {
            "true}"@
        } else {
            "false}"@
        },
{
    reveal_strlit("{\"auto_update\":true}");
    reveal_strlit("{\"auto_update\":false}");
    reveal_strlit("{\"auto_update\":");
    reveal_strlit("true}");
    reveal_strlit("false}");
    assert(override_content(true).take(15) =~= "{\"auto_update\":"@);
    assert(override_content(false).take(15) =~= "{\"auto_update\":"@);
    assert(override_content(true).skip(15) =~= "true}"@);
    assert(override_content(false).skip(15) =~= "false}"@);
}

/// The account whose token is replaced is one that has the old token, whatever number is given. Where
/// none has it, it is the one that the number, counted from 1, names, and a number that names none
/// finds none.
pub proof fn law_token_is_found_by_itself_before_its_number(
    cfg: ConfigView,
    old_token: Seq<char>,
    index: usize,
    at: int,
)
    ensures
        ({
            let has = |i: int| cfg.accounts[i].proxy_token == old_token;
            let none = forall|i: int| 0 <= i < cfg.accounts.len() ==> !#[trigger] has(i);
            &&& 0 <= at < cfg.accounts.len() && has(at) ==> (token_holder(
                cfg,
                old_token,
                index,
            ) matches Some(k) && 0 <= k <= at && has(k))
            &&& none && 1 <= index <= cfg.accounts.len() ==> token_holder(cfg, old_token, index) == Some(
                index - 1,
            )
            &&& none && !(1 <= index <= cfg.accounts.len()) ==> token_holder(cfg, old_token, index)
                is None
        }),
{
    lemma_token_from(cfg.accounts, old_token, 0);
    let has = |i: int| cfg.accounts[i].proxy_token == old_token;
    if let Some(k) = token_from(cfg.accounts, old_token, 0) {
        assert(has(k));
    }
}

} // verus!
