use herald_mcserver::auth::{validate_password, AuthError};
use herald_mcserver::b64::base64_decode;
use herald_mcserver::config::Config;
use herald_mcserver::server::mcp::INVALID_PARAMS;
use herald_mcserver::server::tools::{build_start_options, start_options, upload_bytes, StartReq};

#[test]
fn base64_round_trips_known_texts() {
    assert_eq!(base64_decode("").unwrap(), b"".to_vec());
    assert_eq!(base64_decode("Zg==").unwrap(), b"f".to_vec());
    assert_eq!(base64_decode("Zm8=").unwrap(), b"fo".to_vec());
    assert_eq!(base64_decode("Zm9v").unwrap(), b"foo".to_vec());
    assert_eq!(base64_decode("Zm9vYmFy").unwrap(), b"foobar".to_vec());
    assert_eq!(base64_decode("UEsDBA==").unwrap(), vec![0x50, 0x4b, 0x03, 0x04]);
    assert_eq!(base64_decode("+/+/").unwrap(), vec![0xfb, 0xff, 0xbf]);
}

#[test]
fn base64_refuses_what_is_not_base64() {
    assert!(base64_decode("Zm9").is_none());
    assert!(base64_decode("Zm=v").is_none());
    assert!(base64_decode("Zg==Zm9v").is_none());
    assert!(base64_decode("Zm9v!A==").is_none());
    let e = upload_bytes("***").unwrap_err();
    assert_eq!(e.code, INVALID_PARAMS);
    assert_eq!(upload_bytes("UEsDBA==").unwrap(), vec![0x50, 0x4b, 0x03, 0x04]);
}

#[test]
fn short_passwords_count_characters() {
    assert!(matches!(validate_password("密码密码"), Err(AuthError::InvalidPassword { reason: "密码至少 8 个字符" })));
    assert!(validate_password("密码密码密码密码").is_ok());
    assert!(validate_password("1234567").is_err());
    assert!(validate_password("12345678").is_ok());
}

#[test]
fn starts_wait_two_minutes_and_force_the_game_port() {
    let c = Config::default();
    let rest = build_start_options(
        StartReq { mc_version: None, heap_mb: None, server_port: None, rcon_port: None, rcon_password: None, wait_ready_secs: None },
        &c.mc,
    );
    assert_eq!(rest.wait_ready_secs, 120);
    assert_eq!(rest.server_port, Some(c.mc.server_port));
    let mcp = start_options(None, None, None, &c.mc);
    assert_eq!(mcp.wait_ready_secs, 120);
    assert_eq!(mcp.server_port, Some(c.mc.server_port));
    assert_eq!(start_options(None, None, Some(30), &c.mc).wait_ready_secs, 30);
}
