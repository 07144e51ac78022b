use herald_mcserver::auth::ApiKeyScope;
use herald_mcserver::rcon::packet_len_field;
use herald_mcserver::runtime::java_probe::parse_major;
use herald_mcserver::runtime::mc_versions::required_java_major;
use herald_mcserver::runtime::mirrors::{Mirror, Upstream};
use herald_mcserver::server::mcp::{summarize_args, ArgValue, Args};
use herald_mcserver::server::rate_limit::RateLimiter;
use herald_mcserver::server::sandbox::{resolve, validate_jar_filename, SandboxError};

#[test]
fn scope_covers_logic() {
    assert!(ApiKeyScope::McpFull.covers(ApiKeyScope::McpRead));
    assert!(ApiKeyScope::McpFull.covers(ApiKeyScope::McpFull));
    assert!(ApiKeyScope::McpRead.covers(ApiKeyScope::McpRead));
    assert!(!ApiKeyScope::McpRead.covers(ApiKeyScope::McpFull));
}

#[test]
fn packet_sizing_arithmetic_is_right() {
    // payload "list" (4 bytes): id + type + payload + two NULs
    let payload_len: usize = 4;
    let expected_length = packet_len_field(payload_len);
    assert_eq!(expected_length, 14);
}

#[test]
fn parse_modern() {
    assert_eq!(parse_major("openjdk version \"21.0.1\" 2023-10-17"), Some(21));
}

#[test]
fn parse_legacy() {
    assert_eq!(parse_major("java version \"1.8.0_341\""), Some(8));
}

#[test]
fn parse_with_extra() {
    assert_eq!(
        parse_major("OpenJDK 64-Bit Server VM\njava version \"17.0.5\" 2022-10-18"),
        Some(17)
    );
}

#[test]
fn java_8_for_old() {
    assert_eq!(required_java_major("1.16.5"), 8);
}

#[test]
fn java_17_branch() {
    assert_eq!(required_java_major("1.18.2"), 17);
    assert_eq!(required_java_major("1.19.4"), 17);
    assert_eq!(required_java_major("1.20.1"), 17);
    assert_eq!(required_java_major("1.20.4"), 17);
}

#[test]
fn java_21_branch() {
    assert_eq!(required_java_major("1.20.5"), 21);
    assert_eq!(required_java_major("1.20.6"), 21);
    assert_eq!(required_java_major("1.21"), 21);
    assert_eq!(required_java_major("1.21.4"), 21);
}

#[test]
fn unknown_falls_back_to_max() {
    assert_eq!(required_java_major("1.99.0"), 21);
    assert_eq!(required_java_major("garbage"), 21);
}

#[test]
fn snapshot_prefix_handled() {
    assert_eq!(required_java_major("1.20.4-pre1"), 17);
}

#[test]
fn new_version_scheme_26x() {
    assert_eq!(required_java_major("26.1"), 21);
    assert_eq!(required_java_major("26.1.2"), 21);
    assert_eq!(required_java_major("26.2"), 21);
    assert_eq!(required_java_major("27.0.1"), 21);
}

#[test]
fn default_no_op() {
    let m = Mirror::new("default");
    let url = "https://api.papermc.io/v2/projects/paper";
    assert_eq!(m.rewrite(Upstream::PaperApi, url), url);
}

#[test]
fn bmclapi_rewrites_paper() {
    let m = Mirror::new("bmclapi");
    let url = "https://api.papermc.io/v2/projects/paper/versions/1.21.4";
    let out = m.rewrite(Upstream::PaperApi, url);
    assert!(out.starts_with("https://bmclapi2.bangbang93.com/v2/"));
}

#[test]
fn tuna_rewrites_adoptium_download() {
    let m = Mirror::new("tuna");
    let url = "https://github.com/adoptium/temurin21-binaries/releases/download/foo.tar.gz";
    let out = m.rewrite(Upstream::AdoptiumDownload, url);
    assert!(out.starts_with("https://mirrors.tuna.tsinghua.edu.cn/Adoptium/"));
}

#[test]
fn custom_base() {
    let m = Mirror::new("https://my-cdn.example/proxy");
    let url = "https://api.papermc.io/v2/projects/paper";
    let out = m.rewrite(Upstream::PaperApi, url);
    assert_eq!(out, "https://my-cdn.example/proxy/v2/projects/paper");
}

fn s(v: &str) -> ArgValue {
    ArgValue::Str(v.to_string())
}

#[test]
fn elides_long_content() {
    let args = Args::Object(vec![
        ("content".to_string(), s(&"x".repeat(8000))),
        ("path".to_string(), s("server.properties")),
    ]);
    let out = summarize_args(&args);
    assert!(out.contains("path=\"server.properties\""));
    assert!(out.contains("content=<8000 bytes>"));
}

#[test]
fn truncates_long_summary() {
    let args = Args::Object(vec![
        ("aaa".to_string(), s(&"x".repeat(100))),
        ("bbb".to_string(), s(&"y".repeat(100))),
        ("ccc".to_string(), s(&"z".repeat(100))),
        ("ddd".to_string(), s(&"w".repeat(100))),
    ]);
    let out = summarize_args(&args);
    assert!(out.chars().count() <= 200, "actual len: {}", out.chars().count());
    assert!(out.ends_with("..."), "actual suffix: ...{}", &out[out.len().saturating_sub(10)..]);
}

#[test]
fn shortens_long_strings_per_field() {
    let args = Args::Object(vec![("filename".to_string(), s(&"x".repeat(120)))]);
    let out = summarize_args(&args);
    assert!(out.contains("..."));
    assert!(!out.contains(&"x".repeat(120)));
}

#[test]
fn allows_under_limit() {
    let mut rl = RateLimiter::new();
    for _ in 0..3 {
        assert!(rl.check("a", 5, 60));
    }
}

#[test]
fn blocks_over_limit() {
    let mut rl = RateLimiter::new();
    for _ in 0..5 {
        assert!(rl.check("a", 5, 60));
    }
    assert!(!rl.check("a", 5, 60));
}

#[test]
fn keys_dont_share() {
    let mut rl = RateLimiter::new();
    for _ in 0..5 {
        assert!(rl.check("a", 5, 60));
    }
    assert!(rl.check("b", 5, 60));
}

#[test]
fn rejects_parent_traversal() {
    let root = "/tmp";
    assert!(matches!(resolve(root, "../etc/passwd"), Err(SandboxError::Escape)));
    assert!(matches!(resolve(root, "a/../b"), Err(SandboxError::Escape)));
}

#[test]
fn rejects_absolute() {
    let root = "/tmp";
    assert!(matches!(resolve(root, "/etc/passwd"), Err(SandboxError::Absolute)));
}

#[test]
fn accepts_clean_relative() {
    let root = "/tmp";
    let r = resolve(root, "plugins/EssentialsX.jar").unwrap();
    assert!(r.starts_with(root));
}

#[test]
fn validate_jar_name() {
    assert!(validate_jar_filename("EssentialsX.jar").is_ok());
    assert!(validate_jar_filename("my-plugin-1.0.0.jar").is_ok());
    assert!(validate_jar_filename("../evil.jar").is_err());
    assert!(validate_jar_filename("hidden/.jar").is_err());
    assert!(validate_jar_filename("notjar.txt").is_err());
    assert!(validate_jar_filename("").is_err());
}
