use herald_mcserver::auth::{validate_password, validate_username, AuthError};
use herald_mcserver::mcserver::props::patch_property;
use herald_mcserver::server::rate_limit::RateLimiter;

const SEC: u128 = 1_000_000_000;

#[test]
fn refusals_carry_their_reasons() {
    assert!(matches!(validate_password("short"), Err(AuthError::InvalidPassword { reason: "密码至少 8 个字符" })));
    let long = "x".repeat(257);
    assert!(matches!(validate_password(&long), Err(AuthError::InvalidPassword { reason: "密码过长" })));
    assert!(validate_password(&"x".repeat(256)).is_ok());
    assert!(matches!(validate_username("a"), Err(AuthError::InvalidUsername { reason: "长度需 2-32 字符" })));
    assert!(matches!(validate_username("bad name"), Err(AuthError::InvalidUsername { reason: "仅允许字母/数字/._-" })));
    assert!(validate_username("steve_01").is_ok());
}

#[test]
fn patching_twice_is_patching_once() {
    for (body, key, value) in [
        ("a=1\nonline-mode=true", "online-mode", "false"),
        ("a=1\r\nb=2\r\n", "motd", "hi"),
        ("motd=old\r\n", "motd", "new\r"),
        ("", "rcon.port", "25575"),
    ] {
        let once = patch_property(body, key, value);
        assert_eq!(patch_property(&once, key, value), once);
    }
    assert_eq!(patch_property("a=1\nonline-mode=true", "online-mode", "false"), "a=1\nonline-mode=false\n");
}

#[test]
fn history_counts_only_admitted_requests_in_window() {
    let mut rl = RateLimiter::new();
    // limit 2 per 10 s: admitted at 0 and 1, refused at 2 and 5, admitted at 11 (only the one at 1 is
    // in window), refused again at 11, admitted at 12 (the one at 1 has left).
    let answers: Vec<bool> = [0u128, 1, 2, 5, 11, 11, 12]
        .iter()
        .map(|t| rl.check_at("k", 2, 10 * SEC, t * SEC))
        .collect();
    assert_eq!(answers, vec![true, true, false, false, true, false, true]);
}
