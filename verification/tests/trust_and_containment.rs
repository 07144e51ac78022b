use herald_mcserver::runtime::mirrors::{Mirror, Upstream};
use herald_mcserver::server::proxy::trusts_forwarded;
use herald_mcserver::server::rate_limit::RateLimiter;
use herald_mcserver::server::sandbox::within_root;

const SEC: u128 = 1_000_000_000;

#[test]
fn forwarded_header_trusted_only_from_listed_ranges() {
    assert!(trusts_forwarded("127.0.0.1", "127.0.0.1/32"));
    assert!(trusts_forwarded("127.0.0.1", "127.0.0.1"));
    assert!(trusts_forwarded("10.1.2.3", "192.168.1.1, 10.0.0.0/8"));
    assert!(trusts_forwarded("8.8.8.8", "0.0.0.0/0"));
    assert!(!trusts_forwarded("8.8.8.8", "127.0.0.1/32"));
    assert!(!trusts_forwarded("127.0.0.2", "127.0.0.1/32"));
    assert!(!trusts_forwarded("11.0.0.1", "10.0.0.0/8"));
    assert!(!trusts_forwarded("127.0.0.1", ""));
    assert!(!trusts_forwarded("127.0.0.1", "127.0.0.1/33"));
    assert!(!trusts_forwarded("127.0.0.1", "127.0.0.256"));
    assert!(!trusts_forwarded("::1", "127.0.0.1/32"));
}

#[test]
fn containment_is_by_whole_components() {
    assert!(within_root("/srv/a", "/srv/a"));
    assert!(within_root("/srv/a/plugins/x.jar", "/srv/a"));
    assert!(!within_root("/srv/ab", "/srv/a"));
    assert!(!within_root("/srv", "/srv/a"));
    assert!(within_root("/etc/passwd", "/"));
    assert!(within_root("/srv/a/x", "/srv/a/"));
}

#[test]
fn mirror_leaves_other_upstreams_alone() {
    let paper = "https://api.papermc.io/v2/projects/paper";
    let jdk = "https://github.com/adoptium/temurin21-binaries/releases/x.tar.gz";
    assert_eq!(Mirror::new("tuna").rewrite(Upstream::PaperApi, paper), paper);
    assert_eq!(Mirror::new("bmclapi").rewrite(Upstream::AdoptiumDownload, jdk), jdk);
    assert_eq!(Mirror::new("").rewrite(Upstream::AdoptiumDownload, jdk), jdk);
    assert_eq!(Mirror::new("default").rewrite(Upstream::PaperApi, paper), paper);
    assert_eq!(Mirror::new("elsewhere").rewrite(Upstream::PaperApi, paper), paper);
    assert_ne!(Mirror::new("tuna").rewrite(Upstream::AdoptiumDownload, jdk), jdk);
}

#[test]
fn sixth_request_in_window_is_refused() {
    let mut rl = RateLimiter::new();
    for i in 0..5u128 {
        assert!(rl.check_at("a", 5, 60 * SEC, i * SEC));
    }
    assert!(!rl.check_at("a", 5, 60 * SEC, 10 * SEC));
    assert!(rl.check_at("b", 5, 60 * SEC, 10 * SEC));
    assert!(rl.check_at("a", 5, 60 * SEC, 61 * SEC));
}

#[test]
fn gc_does_not_change_later_answers() {
    let mut with_gc = RateLimiter::new();
    let mut without = RateLimiter::new();
    for rl in [&mut with_gc, &mut without] {
        assert!(rl.check_at("a", 2, 60 * SEC, 0));
        assert!(rl.check_at("a", 2, 60 * SEC, SEC));
        assert!(rl.check_at("b", 2, 60 * SEC, 0));
    }
    with_gc.gc_at(30 * SEC);
    assert_eq!(with_gc.check_at("a", 2, 60 * SEC, 30 * SEC), without.check_at("a", 2, 60 * SEC, 30 * SEC));
    with_gc.gc_at(2000 * SEC);
    assert_eq!(with_gc.check_at("b", 2, 60 * SEC, 2000 * SEC), without.check_at("b", 2, 60 * SEC, 2000 * SEC));
}
