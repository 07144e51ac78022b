use herald_mcserver::server::feed::{feed_action, FeedAction, FeedInput};
use herald_mcserver::auth::{api_key_from_row, ApiKeyScope, AuthError};
use herald_mcserver::runtime::java_probe::{dedupe_by_path, JavaInfo};
use herald_mcserver::runtime::paper::{sort_cached, CachedPaper};
use herald_mcserver::server::plugins::{sort_plugin_entries, PluginEntry};
use herald_mcserver::server::tools::{sort_file_entries, FileEntry};

fn paper(version: &str, build: u64) -> CachedPaper {
    CachedPaper { version: version.to_string(), build, jar_path: format!("paper-{version}-{build}.jar"), size: build }
}

#[test]
fn cached_jars_sort_by_version_then_build() {
    let v = vec![paper("1.21.4", 230), paper("1.20.6", 151), paper("1.21.4", 12), paper("1.21.1", 130)];
    let r = sort_cached(v);
    let got: Vec<(String, u64)> = r.iter().map(|p| (p.version.clone(), p.build)).collect();
    assert_eq!(
        got,
        vec![
            ("1.20.6".to_string(), 151),
            ("1.21.1".to_string(), 130),
            ("1.21.4".to_string(), 12),
            ("1.21.4".to_string(), 230),
        ]
    );
}

fn entry(path: &str, is_dir: bool) -> FileEntry {
    FileEntry { path: path.to_string(), is_dir, size: 0 }
}

#[test]
fn file_listing_puts_directories_first_then_names_without_case() {
    let v = vec![entry("server.properties", false), entry("World", true), entry("Banned.json", false), entry("logs", true), entry("eula.txt", false)];
    let r = sort_file_entries(v);
    let got: Vec<&str> = r.iter().map(|e| e.path.as_str()).collect();
    assert_eq!(got, vec!["logs", "World", "Banned.json", "eula.txt", "server.properties"]);
}

#[test]
fn file_listing_keeps_equal_keys_in_order() {
    let v = vec![entry("A.txt", false), entry("a.txt", false)];
    let r = sort_file_entries(v);
    assert_eq!(r[0].path, "A.txt");
    assert_eq!(r[1].path, "a.txt");
}

#[test]
fn plugin_listing_sorts_names_without_case() {
    let p = |n: &str| PluginEntry { filename: n.to_string(), size: 1, modified_ts: 0 };
    let r = sort_plugin_entries(vec![p("WorldEdit.jar"), p("essentials.jar"), p("Vault.jar.disabled")]);
    let got: Vec<&str> = r.iter().map(|e| e.filename.as_str()).collect();
    assert_eq!(got, vec!["essentials.jar", "Vault.jar.disabled", "WorldEdit.jar"]);
}

fn java(path: &str, major: u32, source: &'static str) -> JavaInfo {
    JavaInfo { path: path.to_string(), major, vendor: None, source }
}

#[test]
fn runtimes_found_twice_are_listed_once() {
    let found = vec![java("/opt/java/bin/java", 21, "JAVA_HOME"), java("/usr/bin/java", 21, "PATH"), java("/data/jdk-17/bin/java", 17, "managed")];
    let keys = vec!["/opt/java/bin/java".to_string(), "/opt/java/bin/java".to_string(), "/data/jdk-17/bin/java".to_string()];
    let r = dedupe_by_path(found, keys);
    assert_eq!(r.len(), 2);
    assert_eq!(r[0].source, "JAVA_HOME");
    assert_eq!(r[1].major, 17);
}

#[test]
fn key_rows_are_read_back_or_refused() {
    let k = api_key_from_row("k1".into(), "u1".into(), "panel".into(), "mcp:read", 5, Some(7), None).unwrap();
    assert_eq!(k.scope, ApiKeyScope::McpRead);
    assert_eq!(k.last_used_at, Some(7));
    assert_eq!(k.name, "panel");
    match api_key_from_row("k2".into(), "u1".into(), "x".into(), "admin", 5, None, None) {
        Err(AuthError::Internal(m)) => assert_eq!(m, "bad scope"),
        _ => panic!("an unknown scope must be refused"),
    }
}

#[test]
fn feed_forwards_events_and_stops_on_close() {
    assert_eq!(feed_action(FeedInput::BusEvent), FeedAction::Forward);
    assert_eq!(feed_action(FeedInput::BusLagged), FeedAction::Skip);
    assert_eq!(feed_action(FeedInput::BusClosed), FeedAction::Close);
    assert_eq!(feed_action(FeedInput::ClientPing), FeedAction::Pong);
    assert_eq!(feed_action(FeedInput::ClientClosed), FeedAction::Close);
    assert_eq!(feed_action(FeedInput::ClientError), FeedAction::Close);
    assert_eq!(feed_action(FeedInput::ClientOther), FeedAction::Skip);
}
