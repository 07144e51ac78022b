use herald_mcserver::auth::{
    check_invite, check_key_prefix, login_attempt, login_gate, new_api_key, new_invite, new_session,
    prepare_user, record_failure, record_success, validate_username, ApiKeyScope, AuthError,
    LockState, LoginOutcome, Role, SessionRow, validate_session_row,
};
use herald_mcserver::cli::{parse_args, CliAction};
use herald_mcserver::config::{Config, CoreError};
use herald_mcserver::credentials::{gen_code, gen_key, gen_rcon_password, gen_token, hash_key};
use herald_mcserver::mcserver::instance::{InstanceState, ProcessInfo, StartError, StartErrorWire, StopAction, local_rcon};
use herald_mcserver::mcserver::process::{java_args, read_window, LogLine, LogRing, ServerStatus};
use herald_mcserver::mcserver::props::{initial_properties, lines_of, patch_property};
use herald_mcserver::paths::{choose_data_dir, jdk_cache_root, join};
use herald_mcserver::rcon::{
    decode_body, decode_length, encode_packet, exec_reply, login_reply, LoginStep, RconError,
    RequestIds,
};
use herald_mcserver::runtime::java_install::{platform_for, select_package, ArchiveKind, PackageInfo, ReleaseInfo};
use herald_mcserver::runtime::paper::{
    cache_file_name, checksum_matches, is_legacy_version, parse_cache_file_name, select_v3_build,
    v2_build_url, verify_download,
};
use herald_mcserver::runtime::mirrors::Mirror;
use herald_mcserver::runtime::tasks::{TaskKind, TaskOp, TaskStatus, TaskTable};
use herald_mcserver::server::api::{bearer_token, client_ip_key, ApiError};
use herald_mcserver::server::mcp::{
    check_tool_scope, http_status_for, parse_tool_call, DispatchError, route_method, short_error_message, tool_catalog, truncate,
    Method, ToolName, METHOD_NOT_FOUND,
};
use herald_mcserver::server::plugins::{check_plugin_bytes, plan_install};
use herald_mcserver::server::tools::{extract_host, plugin_remove_name, public_host, splice_lines};

#[test]
fn rcon_frame_reads_back() {
    let payload = b"list".to_vec();
    let bytes = encode_packet(7, 2, &payload);
    assert_eq!(bytes.len(), 18);
    assert_eq!(&bytes[0..4], &[14, 0, 0, 0]);
    let len = decode_length(&bytes[0..4]).unwrap();
    assert_eq!(len, 14);
    let (id, ptype, body) = decode_body(&bytes[4..4 + len]);
    assert_eq!((id, ptype), (7, 2));
    assert_eq!(body, payload);
}

#[test]
fn rcon_negative_id_round_trips() {
    let bytes = encode_packet(-1, 0, b"");
    let (id, ptype, body) = decode_body(&bytes[4..]);
    assert_eq!(id, -1);
    assert_eq!(ptype, 0);
    assert!(body.is_empty());
}

#[test]
fn rcon_bad_length_is_refused() {
    match decode_length(&[5, 0, 0, 0]) {
        Err(RconError::UnexpectedResponse(m)) => assert_eq!(m, "bad length 5"),
        _ => panic!("expected an error"),
    }
    assert!(decode_length(&[0x01, 0x10, 0, 0]).is_err());
}

#[test]
fn rcon_ids_skip_non_positive() {
    let mut ids = RequestIds::new();
    assert_eq!(ids.alloc_id(), 1);
    assert_eq!(ids.alloc_id(), 2);
}

#[test]
fn rcon_login_replies() {
    assert!(matches!(login_reply(1, 5, 0), LoginStep::KeepReading));
    assert!(matches!(login_reply(1, -1, 2), LoginStep::Done(Err(RconError::AuthFailed))));
    assert!(matches!(login_reply(1, 1, 2), LoginStep::Done(Ok(()))));
    match login_reply(1, 9, 2) {
        LoginStep::Done(Err(RconError::UnexpectedResponse(m))) => {
            assert_eq!(m, "login: expected id 1, got 9 (type 2)")
        }
        _ => panic!("expected a mismatch"),
    }
}

#[test]
fn rcon_exec_replies() {
    assert_eq!(exec_reply(3, 3, 0, b"There are 0 players").unwrap(), "There are 0 players");
    match exec_reply(3, 4, 0, b"") {
        Err(RconError::UnexpectedResponse(m)) => assert_eq!(m, "exec: expected id 3, got 4"),
        _ => panic!(),
    }
    match exec_reply(3, 3, 2, b"") {
        Err(RconError::UnexpectedResponse(m)) => assert_eq!(m, "exec: expected type RESPONSE, got 2"),
        _ => panic!(),
    }
}

#[test]
fn patch_property_replaces_and_appends() {
    let body = "motd=hi\nonline-mode=true\r\n  online-mode=true\n";
    let out = patch_property(body, "online-mode", "false");
    assert_eq!(out, "motd=hi\nonline-mode=false\nonline-mode=false\n");
    let out2 = patch_property("motd=hi", "server-port", "25566");
    assert_eq!(out2, "motd=hi\nserver-port=25566\n");
    assert_eq!(patch_property("", "a", "b"), "a=b\n");
}

#[test]
fn initial_properties_sets_everything() {
    let out = initial_properties("", Some(25565), Some(25575), Some("pw"));
    let lines = lines_of(&out);
    assert_eq!(
        lines,
        vec![
            "online-mode=false",
            "server-port=25565",
            "enable-rcon=true",
            "rcon.port=25575",
            "broadcast-rcon-to-ops=false",
            "rcon.password=pw"
        ]
    );
}

#[test]
fn lines_follow_str_lines() {
    let text = "foo\r\nbar\n\nbaz\r";
    let expected: Vec<String> = text.lines().map(|s| s.to_string()).collect();
    assert_eq!(lines_of(text), expected);
    assert!(lines_of("").is_empty());
}

#[test]
fn log_ring_keeps_newest() {
    let mut ring = LogRing::new();
    for i in 0..5001 {
        ring.push(LogLine { ts: i, stream: "stdout", text: format!("line {i}") });
    }
    assert_eq!(ring.len(), 4001);
    let tail = ring.tail(2);
    assert_eq!(tail.len(), 2);
    assert_eq!(tail[1].text, "line 5000");
    assert_eq!(ring.tail(10000).len(), 4001);
    assert_eq!(ring.tail(10000)[0].text, "line 1000");
}

#[test]
fn java_args_shape() {
    let a = java_args(4096, "paper.jar");
    assert_eq!(a, vec!["-Xmx4096M", "-Xms1024M", "-Djline.terminal=dumb", "-jar", "paper.jar", "nogui"]);
    assert_eq!(java_args(512, "p.jar")[1], "-Xms512M");
}

#[test]
fn log_window_resets_after_truncation() {
    assert_eq!(read_window(100, 40), (40, 60));
    assert_eq!(read_window(10, 40), (0, 10));
    assert_eq!(read_window(40, 40), (40, 0));
}

#[test]
fn instance_state_machine() {
    let mut st = InstanceState::new();
    assert!(matches!(st.begin_stop(), StopAction::Nothing));
    assert!(st.check_can_start().is_ok());
    st.mark_starting();
    assert!(matches!(st.check_can_start(), Err(StartError::BadState { status: ServerStatus::Starting })));
    st.spawned(
        ProcessInfo { pid: 42, mc_version: "1.21.4".into(), started_at: 1, work_dir: "/w".into() },
        local_rcon(25575, "pw".into()),
    );
    st.ready();
    let snap = st.snapshot();
    assert_eq!(snap.status, ServerStatus::Running);
    assert_eq!(snap.pid, Some(42));
    assert_eq!(st.rcon_endpoint().unwrap().host, "127.0.0.1");
    assert!(matches!(st.begin_stop(), StopAction::Stop { pid: Some(42) }));
    st.exited();
    assert_eq!(st.snapshot().status, ServerStatus::Stopped);
    assert!(st.rcon_endpoint().is_none());
    assert!(st.console_target().is_err());
}

#[test]
fn start_error_wire_and_text() {
    let e = StartError::EnvMissing { need_java_major: 21, have_java: None, paper_cached: true };
    assert_eq!(e.text(), "环境缺失：need Java 21; paper jar 缺失？");
    assert_eq!(e.http_status(), (412, "env_missing"));
    match StartErrorWire::from_error(&e) {
        StartErrorWire::EnvMissing { suggested_action, .. } => {
            assert_eq!(suggested_action, "mc_env_install_java_or_paper")
        }
        _ => panic!(),
    }
    assert_eq!(StartError::ReadyTimeout(30).text(), "等待 ready 超时（30s）");
}

#[test]
fn paper_names_and_urls() {
    assert!(is_legacy_version("1.21.4"));
    assert!(!is_legacy_version("26.1"));
    let name = cache_file_name("1.20.4-pre1", 12);
    assert_eq!(name, "paper-1.20.4-pre1-12.jar");
    assert_eq!(parse_cache_file_name(&name), Some(("1.20.4-pre1".to_string(), 12)));
    assert_eq!(parse_cache_file_name("paper-1.21-+7.jar"), Some(("1.21".to_string(), 7)));
    assert_eq!(parse_cache_file_name("paper-1.21.jar"), None);
    assert_eq!(parse_cache_file_name("notpaper.jar"), None);
    let url = v2_build_url("1.21.4", 230, &Mirror::new("bmclapi"));
    assert_eq!(url, "https://bmclapi2.bangbang93.com/v2/projects/paper/versions/1.21.4/builds/230");
}

#[test]
fn paper_build_choice_and_checksum() {
    assert_eq!(select_v3_build(&[5, 7, 7], Some(7), "26.1"), Ok(1));
    assert_eq!(select_v3_build(&[5], Some(9), "26.1"), Err("build 9 not found".to_string()));
    assert_eq!(select_v3_build(&[5, 6], None, "26.1"), Ok(1));
    assert_eq!(select_v3_build(&[], None, "26.1"), Err("no builds for 26.1".to_string()));
    assert!(checksum_matches("ABCDEF", "abcdef"));
    assert!(!checksum_matches("abc", "abd"));
    assert_eq!(verify_download("aa", "bb"), Err("SHA-256 校验失败：want bb got aa".to_string()));
}

#[test]
fn temurin_platforms() {
    let p = platform_for("linux", "x86_64").unwrap();
    assert_eq!((p.os, p.arch, p.archive), ("linux", "x64", ArchiveKind::TarGz));
    let w = platform_for("windows", "x86_64").unwrap();
    assert_eq!(w.archive, ArchiveKind::Zip);
    assert_eq!(platform_for("freebsd", "x86_64").unwrap_err(), "unsupported platform os=freebsd arch=x86_64");
    assert_eq!(platform_for("windows", "x86").unwrap_err(), "unsupported arch: x86");
    assert!(select_package(vec![], 21).is_err());
    let pkg = PackageInfo { link: "l".into(), checksum: "c".into(), name: "n".into(), size: Some(1) };
    let rel = ReleaseInfo { binaries: vec![pkg], release_name: "jdk".into() };
    assert_eq!(select_package(vec![rel], 21).unwrap().link, "l");
}

#[test]
fn task_lifecycle_and_drop() {
    let mut t = TaskTable::new();
    let snap = t.create(TaskKind::InstallJava, "Java 21".to_string(), 100);
    assert_eq!(snap.id.len(), 12);
    assert_eq!(snap.status, TaskStatus::Queued);
    t.update(&snap.id, TaskOp::MarkRunning, 101);
    t.update(&snap.id, TaskOp::SetTotal(Some(100)), 101);
    t.update(&snap.id, TaskOp::AddProgress(50), 102);
    t.update(&snap.id, TaskOp::MarkDone, 103);
    let s = t.snapshot(&snap.id).unwrap();
    assert_eq!(s.status, TaskStatus::Done);
    assert_eq!(s.downloaded, 50);
    // a late drop does not undo completion
    let after = t.update(&snap.id, TaskOp::Dropped, 104).unwrap();
    assert_eq!(after.status, TaskStatus::Done);
    let other = t.create(TaskKind::InstallPaper, "Paper".to_string(), 100);
    t.update(&other.id, TaskOp::MarkRunning, 100);
    let dropped = t.update(&other.id, TaskOp::Dropped, 105).unwrap();
    assert_eq!(dropped.status, TaskStatus::Failed);
    assert_eq!(dropped.error.as_deref(), Some("worker dropped without completion"));
    // an hour and more later, finished tasks go away
    t.gc(103 + 3601);
    assert!(t.snapshot(&snap.id).is_none());
    assert!(t.snapshot(&other.id).is_some());
    assert_eq!(t.list().len(), 1);
}

#[test]
fn lockout_after_ten_failures() {
    let mut s = record_success();
    for _ in 0..9 {
        s = record_failure(s, 1000);
        assert!(s.locked_until.is_none());
    }
    s = record_failure(s, 1000);
    assert_eq!(s, LockState { failed_attempts: 10, locked_until: Some(1900) });
    match login_gate(s.locked_until, 1000) {
        Err(AuthError::AccountLocked { until }) => assert_eq!(until, "1970-01-01T00:31:40Z"),
        _ => panic!("expected a lock"),
    }
    assert!(login_gate(s.locked_until, 1900).is_ok());
}

#[test]
fn register_then_login() {
    let (user, hash) = prepare_user("artist", "correct-horse-battery", Role::Owner, 10).unwrap();
    assert_eq!(user.username, "artist");
    assert_eq!(user.id.len(), 36);
    let ok = login_attempt(Some(&hash), record_success(), "correct-horse-battery", 20);
    assert!(matches!(ok, LoginOutcome::Accepted(_)));
    let bad = login_attempt(Some(&hash), record_success(), "wrong", 20);
    match bad {
        LoginOutcome::Wrong(s) => assert_eq!(s.failed_attempts, 1),
        _ => panic!("expected a wrong password"),
    }
    assert!(matches!(login_attempt(None, record_success(), "x", 20), LoginOutcome::Refused(AuthError::UserNotFound)));
    assert!(matches!(
        login_attempt(Some("not a hash"), record_success(), "x", 20),
        LoginOutcome::Refused(AuthError::Argon2(_))
    ));
    assert!(matches!(prepare_user("a", "correct-horse-battery", Role::Member, 0), Err(AuthError::InvalidUsername { .. })));
    assert!(matches!(prepare_user("artist", "short", Role::Member, 0), Err(AuthError::InvalidPassword { .. })));
    assert!(validate_username("bad name").is_err());
}

#[test]
fn api_key_created_and_found_again() {
    let (k, hash) = new_api_key("u1", "  panel-client ", ApiKeyScope::McpRead, 5).unwrap();
    assert!(k.secret.starts_with("mck_"));
    assert_eq!(k.secret.len(), 36);
    assert_eq!(k.key.name, "panel-client");
    assert_eq!(hash, hash_key(&k.secret));
    assert_eq!(hash.len(), 64);
    assert!(check_key_prefix(&k.secret).is_ok());
    assert!(check_key_prefix("sk_123").is_err());
    assert!(new_api_key("u1", "   ", ApiKeyScope::McpFull, 5).is_err());
    // known digest of "abc"
    assert_eq!(hash_key("abc"), "ba7816bf8f01cfea414140de5dae2223b00361a396177a9cb410ff61f20015ad");
}

#[test]
fn generated_secrets_have_their_shapes() {
    let k = gen_key();
    assert!(k.starts_with("mck_") && k.len() == 36);
    assert!(k[4..].chars().all(|c| c.is_ascii_lowercase() || ('2'..='7').contains(&c)));
    let t = gen_token();
    assert!(t.len() == 64 && t.chars().all(|c| c.is_ascii_hexdigit() && !c.is_ascii_uppercase()));
    assert_eq!(gen_code().len(), 6);
    assert_eq!(gen_rcon_password().len(), 24);
    assert_ne!(gen_token(), gen_token());
}

#[test]
fn sessions_and_invites() {
    let s = new_session("u1", Some("dev-pc"), 100, Some(60));
    assert_eq!(s.expires_at, Some(160));
    assert_eq!(s.token.len(), 64);
    let row = |exp: Option<i64>, role: &str| SessionRow {
        token: "t".into(),
        user_id: "u1".into(),
        device: None,
        created_at: 1,
        last_seen: 2,
        expires_at: exp,
        username: "artist".into(),
        role: role.into(),
        user_created_at: 0,
    };
    assert!(validate_session_row(row(Some(160), "owner"), 159).is_ok());
    assert!(matches!(validate_session_row(row(Some(160), "owner"), 160), Err(AuthError::SessionInvalid)));
    assert!(matches!(validate_session_row(row(None, "root"), 0), Err(AuthError::SessionInvalid)));
    let inv = new_invite("owner", None, 0);
    assert_eq!(inv.code.len(), 6);
    assert_eq!(inv.expires_at, 86400);
    assert_eq!(check_invite(Some(("owner".into(), 86400, None)), 10).unwrap(), "owner");
    assert!(matches!(check_invite(Some(("owner".into(), 86400, Some(5))), 10), Err(AuthError::InviteConsumed)));
    assert!(matches!(check_invite(Some(("owner".into(), 86400, None)), 86400), Err(AuthError::InviteExpired)));
    assert!(matches!(check_invite(None, 0), Err(AuthError::InviteInvalid)));
}

#[test]
fn auth_errors_answered() {
    let a = ApiError::from_auth(AuthError::WrongPassword);
    let b = ApiError::from_auth(AuthError::UserNotFound);
    assert_eq!((a.status, a.code, a.message.as_str()), (b.status, b.code, b.message.as_str()));
    assert_eq!(a.status, 401);
    let l = ApiError::from_auth(AuthError::AccountLocked { until: "soon".into() });
    assert_eq!((l.status, l.message.as_str()), (429, "账户已被锁定，解锁时间 soon"));
    let i = ApiError::from_auth(AuthError::InviteExpired);
    assert_eq!((i.status, i.message.as_str()), (500, "invite expired"));
}

#[test]
fn request_credentials() {
    assert_eq!(bearer_token(Some("Bearer  mck_abc ")).unwrap(), "mck_abc");
    assert_eq!(bearer_token(Some("bearer mck_x")).unwrap(), "mck_x");
    assert_eq!(bearer_token(Some("Basic x")).unwrap_err().status, 401);
    assert_eq!(bearer_token(None).unwrap_err().code, "api_key_required");
    assert_eq!(client_ip_key(Some(" 1.2.3.4 , 5.6.7.8"), Some("9.9.9.9".into()), true), "1.2.3.4");
    assert_eq!(client_ip_key(Some("1.2.3.4"), Some("9.9.9.9".into()), false), "9.9.9.9");
    assert_eq!(client_ip_key(None, None, true), "unknown");
}

#[test]
fn mcp_routing_and_tools() {
    assert!(matches!(route_method("tools/call"), Ok(Method::ToolsCall)));
    let e = route_method("nope").unwrap_err();
    assert_eq!((e.code, e.message.as_str()), (METHOD_NOT_FOUND, "未知方法: nope"));
    assert_eq!(http_status_for(&e), 400);
    assert_eq!(http_status_for(&DispatchError::tool("boom".to_string())), 200);
    let refused = check_tool_scope(ToolName::ServerStop, "mc_server_stop", ApiKeyScope::McpRead).unwrap_err();
    assert_eq!(refused.code, -32000);
    assert_eq!(http_status_for(&refused), 403);
    assert_eq!(http_status_for(&DispatchError::internal("x".to_string())), 200);
    assert!(check_tool_scope(ToolName::ServerStop, "mc_server_stop", ApiKeyScope::McpFull).is_ok());
    assert!(matches!(parse_tool_call(Some("mc_rcon_exec")), Ok(ToolName::RconExec)));
    assert_eq!(parse_tool_call(None).unwrap_err().code, -32602);
    let catalog = tool_catalog();
    assert_eq!(catalog.len(), 22);
    let names: Vec<&str> = catalog.iter().map(|t| t.name()).collect();
    assert!(names.contains(&"mc_plugin_upload"));
    assert!(ToolName::PluginUpload.requires_full_scope());
    for t in &catalog {
        assert_eq!(ToolName::parse(t.name()), Some(*t));
        let _: serde_json::Value = serde_json::from_str(t.input_schema()).unwrap();
    }
    assert!(ToolName::FilesWrite.requires_full_scope());
    assert!(!ToolName::FilesRead.requires_full_scope());
}

#[test]
fn short_texts() {
    assert_eq!(truncate("abcdef", 4), "abc…");
    assert_eq!(truncate("abc", 4), "abc");
    assert_eq!(short_error_message("{\"summary\":\"boom\",\"message\":\"x\"}"), "boom");
    assert_eq!(short_error_message("{\"message\":\"m\"}"), "m");
    assert_eq!(short_error_message("plain"), "plain");
}

#[test]
fn tool_helpers() {
    assert_eq!(extract_host("https://mc.example.com:8443/x"), Some("mc.example.com".into()));
    assert_eq!(extract_host("ftp://x"), None);
    assert_eq!(public_host("", "0.0.0.0:8787"), "0.0.0.0");
    assert_eq!(public_host("mc.example.com", "0.0.0.0:8787"), "mc.example.com");
    assert_eq!(plugin_remove_name("Foo.jar.disabled").unwrap(), "Foo.jar.disabled");
    assert_eq!(plugin_remove_name("Foo.jar").unwrap(), "Foo.jar");
    assert!(plugin_remove_name("../x.jar").is_err());
    assert_eq!(splice_lines("a\nb\nc\n", 2, 2, "X\nY").unwrap(), "a\nX\nY\nc");
    assert_eq!(splice_lines("", 1, 1, "new").unwrap(), "new");
    assert!(splice_lines("a\nb\nc", 3, 1, "z").is_err());
}

#[test]
fn plugin_uploads_checked() {
    assert_eq!(check_plugin_bytes(b"hello").unwrap_err().code, "not_zip");
    assert_eq!(check_plugin_bytes(b"PK\x03\x04junk").unwrap_err().code, "not_paper_plugin");
    assert_eq!(plan_install("Foo.jar", 10, true, false).unwrap_err().status, 409);
    let ok = plan_install(" Foo.jar ", 10, true, true).unwrap();
    assert_eq!((ok.filename.as_str(), ok.replaced), ("Foo.jar", true));
    assert_eq!(plan_install("../Foo.jar", 10, false, false).unwrap_err().code, "invalid_path");
}

#[test]
fn config_defaults_and_checks() {
    let c = Config::default();
    assert_eq!(c.server.listen, "0.0.0.0:8787");
    assert_eq!(c.mc.heap_mb, 4096);
    assert_eq!(c.security.session_ttl_secs, 2592000);
    assert!(c.validate().is_ok());
    let mut bad = Config::default();
    bad.mc.heap_mb = 100;
    assert!(matches!(bad.validate(), Err(CoreError::InvalidConfig(_))));
    let fallback = Config::or_default(Err(CoreError::ConfigNotFound("x".into())));
    assert_eq!(fallback.runtime.mirror, "default");
}

#[test]
fn data_dir_and_paths() {
    assert_eq!(choose_data_dir(Some(" data "), Some("/srv"), None), "/srv/data");
    assert_eq!(choose_data_dir(Some("/abs"), Some("/srv"), None), "/abs");
    assert_eq!(choose_data_dir(Some("  "), None, Some("/plat".into())), "/plat");
    assert_eq!(choose_data_dir(None, None, None), "./data");
    assert_eq!(jdk_cache_root("/d"), "/d/runtimes/jdk");
    assert_eq!(join("/d/", "x"), "/d/x");
}

#[test]
fn command_line() {
    let args = |v: &[&str]| v.iter().map(|s| s.to_string()).collect::<Vec<String>>();
    assert!(matches!(parse_args(&args(&["-c", "cfg.toml"])), CliAction::Run { config_path: Some(p) } if p == "cfg.toml"));
    assert!(matches!(parse_args(&args(&[])), CliAction::Run { config_path: None }));
    assert!(matches!(parse_args(&args(&["--help", "--bogus"])), CliAction::Help));
    assert!(matches!(parse_args(&args(&["--bogus"])), CliAction::Unknown(a) if a == "--bogus"));
}
