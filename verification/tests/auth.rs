use chmlfrp_toolbox_daemon::commands::auth::{
    conclude_refresh, ensure_access_token, ensure_user_token, invalidate_cache, refresh_url, refresh_via_backend,
    token_key, validate_proxy_token, CachedToken, RefreshBody, RefreshError, RefreshErrorResponse,
    RefreshReply, RefreshResponse, TokenCache, REFRESH_AHEAD,
};
use chmlfrp_toolbox_daemon::http::HttpReply;
use std::time::Duration;

const NOW: u64 = 1_000_000_000_000;

fn secs(n: u64) -> u64 {
    n * 1_000_000_000
}

#[test]
fn cached_token_usable_before_threshold() {
    let token = CachedToken { access_token: "at".to_string(), expires_at: NOW + secs(120) };
    assert!(token.is_usable(NOW));
    assert!(token.remaining(NOW) > REFRESH_AHEAD);
}

#[test]
fn cached_token_expired_within_threshold() {
    let token = CachedToken { access_token: "at".to_string(), expires_at: NOW + secs(30) };
    assert!(!token.is_usable(NOW));
}

#[test]
fn cached_token_fully_expired() {
    let token = CachedToken { access_token: "at".to_string(), expires_at: NOW - secs(1) };
    assert!(!token.is_usable(NOW));
    assert_eq!(Duration::from_nanos(token.remaining(NOW)), Duration::ZERO);
}

#[test]
fn cached_token_at_the_threshold() {
    let token = CachedToken { access_token: "at".to_string(), expires_at: NOW + secs(60) };
    assert!(!token.is_usable(NOW));
    assert!(token.is_usable(NOW - 1));
}

#[test]
fn token_key_is_hashed_and_stable() {
    let a = token_key("secret-token");
    let b = token_key("secret-token");
    assert_eq!(a, b);
    assert_ne!(a, "secret-token");
    assert_ne!(a, token_key("other-token"));
}

#[test]
fn token_key_is_the_sha256_digest() {
    assert_eq!(token_key("abc"), "ba7816bf8f01cfea414140de5dae2223b00361a396177a9cb410ff61f20015ad");
    assert_eq!(token_key(""), "e3b0c44298fc1c149afbf4c8996fb92427ae41e4649b934ca495991b7852b855");
}

#[test]
fn token_expired_error_detection() {
    let expired = RefreshError::new("PROXY_TOKEN_INVALID", "代理令牌已过期".to_string());
    assert!(expired.is_token_expired());
    let expired2 = RefreshError::new("REFRESH_TOKEN_EXPIRED", "刷新令牌已过期".to_string());
    assert!(expired2.is_token_expired());
    let limited = RefreshError::new("RATE_LIMITED", "请求过于频繁".to_string());
    assert!(!limited.is_token_expired());
    assert!(limited.user_message().contains("稍后重试"));
}

#[test]
fn users_are_told_what_to_do() {
    assert_eq!(
        RefreshError::new("PROXY_TOKEN_INVALID", "m".to_string()).user_message(),
        "m（请在设备管理-远程管理中重新授权，更新 daemon 令牌）"
    );
    assert_eq!(
        RefreshError::new("RATE_LIMITED", "m".to_string()).user_message(),
        "m（触发限流，请稍后重试）"
    );
    assert_eq!(RefreshError::new("REFRESH_FAILED", "m".to_string()).user_message(), "m");
}

#[test]
fn kept_token_is_used_until_a_minute_before_its_end() {
    let mut cache = TokenCache::new();
    assert_eq!(ensure_access_token(&cache, "p", NOW), None);
    cache.store("p", "at", 120, NOW);
    assert_eq!(ensure_access_token(&cache, "p", NOW), Some("at".to_string()));
    assert_eq!(ensure_access_token(&cache, "p", NOW + secs(60) - 1), Some("at".to_string()));
    assert_eq!(ensure_access_token(&cache, "p", NOW + secs(60)), None);
    assert_eq!(ensure_access_token(&cache, "q", NOW), None);
    cache.store("q", "bt", 120, NOW);
    invalidate_cache(&mut cache, "p");
    assert_eq!(ensure_access_token(&cache, "p", NOW), None);
    assert_eq!(ensure_access_token(&cache, "q", NOW), Some("bt".to_string()));
}

fn grant(success: bool, token: &str, expires_in: Option<u64>) -> Result<RefreshReply, String> {
    Ok(RefreshReply {
        code: 200,
        status: "200 OK".to_string(),
        body: Ok(RefreshBody {
            refusal: RefreshErrorResponse { code: None, message: None },
            grant: Ok(RefreshResponse { success, access_token: token.to_string(), expires_in }),
        }),
    })
}

fn refusal(code: Option<&str>, message: Option<&str>) -> Result<RefreshReply, String> {
    Ok(RefreshReply {
        code: 401,
        status: "401 Unauthorized".to_string(),
        body: Ok(RefreshBody {
            refusal: RefreshErrorResponse {
                code: code.map(|s| s.to_string()),
                message: message.map(|s| s.to_string()),
            },
            grant: Err("no".to_string()),
        }),
    })
}

#[test]
fn grants_last_within_limits() {
    assert_eq!(refresh_via_backend(grant(true, "t", None)).unwrap(), ("t".to_string(), 1500));
    assert_eq!(refresh_via_backend(grant(true, "t", Some(1))).unwrap().1, 60);
    assert_eq!(refresh_via_backend(grant(true, "t", Some(600))).unwrap().1, 600);
    assert_eq!(refresh_via_backend(grant(true, "t", Some(100000))).unwrap().1, 3600);
}

fn both(e: RefreshError) -> (String, String) {
    (e.code, e.message)
}

#[test]
fn refusals_carry_their_code() {
    assert_eq!(
        both(refresh_via_backend(refusal(Some("RATE_LIMITED"), Some("慢"))).unwrap_err()),
        ("RATE_LIMITED".to_string(), "慢".to_string())
    );
    assert_eq!(
        both(refresh_via_backend(refusal(None, None)).unwrap_err()),
        ("UNKNOWN".to_string(), "刷新令牌失败 (HTTP 401 Unauthorized)".to_string())
    );
    assert_eq!(
        both(refresh_via_backend(grant(false, "t", None)).unwrap_err()),
        ("REFRESH_FAILED".to_string(), "刷新令牌返回异常".to_string())
    );
    assert_eq!(refresh_via_backend(grant(true, "", None)).unwrap_err().code, "REFRESH_FAILED");
    assert_eq!(
        both(refresh_via_backend(Err("e".to_string())).unwrap_err()),
        ("REFRESH_FAILED".to_string(), "刷新令牌请求失败: e".to_string())
    );
    assert_eq!(
        both(
            refresh_via_backend(Ok(RefreshReply {
                code: 200,
                status: "200 OK".to_string(),
                body: Err("e".to_string())
            }))
            .unwrap_err()
        ),
        ("REFRESH_FAILED".to_string(), "读取刷新响应失败: e".to_string())
    );
    assert_eq!(
        both(
            refresh_via_backend(Ok(RefreshReply {
                code: 200,
                status: "200 OK".to_string(),
                body: Ok(RefreshBody {
                    refusal: RefreshErrorResponse { code: None, message: None },
                    grant: Err("e".to_string())
                })
            }))
            .unwrap_err()
        ),
        ("REFRESH_FAILED".to_string(), "解析刷新响应失败: e".to_string())
    );
    assert!(validate_proxy_token(grant(true, "t", None)).is_ok());
    assert_eq!(validate_proxy_token(refusal(Some("X"), Some("y"))).unwrap_err().code, "X");
}

#[test]
fn refresh_is_concluded() {
    let mut cache = TokenCache::new();
    cache.store("q", "bt", 600, NOW);
    let token = conclude_refresh(&mut cache, "p", grant(true, "at", Some(120)), NOW).unwrap();
    assert_eq!(token, "at");
    assert_eq!(ensure_access_token(&cache, "p", NOW), Some("at".to_string()));
    assert_eq!(ensure_access_token(&cache, "p", NOW + secs(60)), None);
    let refused = conclude_refresh(&mut cache, "p", refusal(Some("RATE_LIMITED"), Some("慢")), NOW);
    assert_eq!(both(refused.unwrap_err()), ("RATE_LIMITED".to_string(), "慢".to_string()));
    assert_eq!(ensure_access_token(&cache, "p", NOW), Some("at".to_string()));
    assert_eq!(ensure_access_token(&cache, "q", NOW), Some("bt".to_string()));
    conclude_refresh(&mut cache, "p", grant(true, "short", Some(60)), NOW).unwrap();
    assert_eq!(ensure_access_token(&cache, "p", NOW), None);
}

#[test]
fn refresh_address_has_one_slash() {
    assert_eq!(refresh_url("https://b//"), "https://b/auth/refresh");
    assert_eq!(refresh_url("https://b"), "https://b/auth/refresh");
}

fn user(code: u16, body: &str) -> Result<HttpReply, String> {
    Ok(HttpReply { code, status: "s".to_string(), body: Ok(body.as_bytes().to_vec()) })
}

#[test]
fn user_token_is_read() {
    assert_eq!(
        ensure_user_token(user(200, r#"{"code":200,"data":{"usertoken":"ut"}}"#)).unwrap(),
        "ut"
    );
    assert_eq!(
        ensure_user_token(user(200, r#"{"code":200,"data":{}}"#)).unwrap_err().message,
        "用户信息中缺少 usertoken"
    );
    assert_eq!(
        ensure_user_token(user(200, r#"{"code":401,"msg":"无效的登录状态"}"#)).unwrap_err().message,
        "获取用户信息失败: 无效的登录状态"
    );
    assert_eq!(ensure_user_token(Err("e".to_string())).unwrap_err().message, "获取用户信息失败: e");
    assert_eq!(
        ensure_user_token(user(200, "?")).unwrap_err().message,
        "解析用户信息失败: error decoding response body"
    );
    assert!(ensure_user_token(user(500, r#"{"code":200,"data":{"usertoken":"ut"}}"#)).is_err());
}
