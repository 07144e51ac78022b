//! Installing a Temurin JRE from Adoptium: which platform to ask for, the
//! metadata URL, which package to download, where it goes, and where the
//! unpacked runtime's root is.
//!
//! The HTTP requests, hashing, unpacking and file moves are the caller's.
use crate::paths::{join, join_s};
use crate::runtime::mirrors::{rewrite_s, Mirror, Upstream};
use crate::text::{concat, decimal, owned, str_eq, u64_to_string};
use vstd::prelude::*;

verus! {

/// The archive format Adoptium ships for a platform.
#[derive(Clone, Copy, Debug, PartialEq, Eq, Structural)]
pub enum ArchiveKind {
    TarGz,
    Zip,
}

/// What the installer asks Adoptium for on this machine.
#[derive(Clone, Copy, Debug)]
pub struct Platform {
    pub os: &'static str,
    pub arch: &'static str,
    pub archive: ArchiveKind,
}

/// The Adoptium `os` for a Rust `std::env::consts::OS`/`ARCH` pair, with the
/// archive kind; `None` for platforms without a Temurin JRE here.
pub open spec fn adoptium_os(os: Seq<char>, arch: Seq<char>) -> Option<(Seq<char>, ArchiveKind)> {
    if os == "linux"@ && (arch == "x86_64"@ || arch == "aarch64"@) {
        Some(("linux"@, ArchiveKind::TarGz))
    } else if os == "macos"@ {
        Some(("mac"@, ArchiveKind::TarGz))
    } else if os == "windows"@ {
        Some(("windows"@, ArchiveKind::Zip))
    } else {
        None
    }
}

pub open spec fn adoptium_arch(arch: Seq<char>) -> Option<Seq<char>> {
    if arch == "x86_64"@ {
        Some("x64"@)
    } else if arch == "aarch64"@ {
        Some("aarch64"@)
    } else {
        None
    }
}

pub open spec fn unsupported_platform_text(os: Seq<char>, arch: Seq<char>) -> Seq<char> {
    "unsupported platform os="@ + os + " arch="@ + arch
}

pub open spec fn unsupported_arch_text(arch: Seq<char>) -> Seq<char> {
    "unsupported arch: "@ + arch
}

fn cat(a: String, b: &str) -> (r: String)
    ensures
        r@ == a@ + b@,
{
    concat(a.as_str(), b)
}

/// Maps the running platform to what Adoptium serves.  The OS is checked
/// first, then the architecture.
pub fn platform_for(os: &str, arch: &str) -> (r: Result<Platform, String>)
    ensures
        match adoptium_os(os@, arch@) {
            None => r matches Err(m) && m@ == unsupported_platform_text(os@, arch@),
            Some((o, k)) => match adoptium_arch(arch@) {
                None => r matches Err(m) && m@ == unsupported_arch_text(arch@),
                Some(a) => r matches Ok(p) && p.os@ == o && p.arch@ == a && p.archive == k,
            },
        },
{
    proof {
        reveal_strlit("linux");
        reveal_strlit("macos");
        reveal_strlit("windows");
        reveal_strlit("x86_64");
        reveal_strlit("aarch64");
    }
    let (o, kind): (&'static str, ArchiveKind) = if str_eq(os, "linux") && (str_eq(arch, "x86_64")
        || str_eq(arch, "aarch64")) {
        ("linux", ArchiveKind::TarGz)
    } else if str_eq(os, "macos") {
        ("mac", ArchiveKind::TarGz)
    } else if str_eq(os, "windows") {
        ("windows", ArchiveKind::Zip)
    } else {
        let a = concat("unsupported platform os=", os);
        let b = cat(a, " arch=");
        return Err(cat(b, arch));
    };
    let a: &'static str = if str_eq(arch, "x86_64") {
        "x64"
    } else if str_eq(arch, "aarch64") {
        "aarch64"
    } else {
        return Err(concat("unsupported arch: ", arch));
    };
    Ok(Platform { os: o, arch: a, archive: kind })
}

/// The metadata query for the newest GA JRE of `major`.
pub open spec fn adoptium_api_url_s(major: nat, arch: Seq<char>, os: Seq<char>) -> Seq<char> {
    "https://api.adoptium.net"@ + "/v3/assets/feature_releases/"@ + decimal(major)
        + "/ga?architecture="@ + arch + "&heap_size=normal&image_type=jre&os="@ + os
        + "&page=0&page_size=1&project=jdk&sort_method=DEFAULT&sort_order=DESC&vendor=eclipse"@
}

/// The metadata URL, through the mirror.
pub fn adoptium_api_url(major: u32, platform: &Platform, mirror: &Mirror) -> (r: String)
    ensures
        r@ == rewrite_s(
            mirror.key@,
            Upstream::AdoptiumApi,
            adoptium_api_url_s(major as nat, platform.arch@, platform.os@),
        ),
{
    let a = concat("https://api.adoptium.net", "/v3/assets/feature_releases/");
    let b = cat(a, u64_to_string(major as u64).as_str());
    let c = cat(b, "/ga?architecture=");
    let d = cat(c, platform.arch);
    let e = cat(d, "&heap_size=normal&image_type=jre&os=");
    let f = cat(e, platform.os);
    let raw = cat(
        f,
        "&page=0&page_size=1&project=jdk&sort_method=DEFAULT&sort_order=DESC&vendor=eclipse",
    );
    mirror.rewrite(Upstream::AdoptiumApi, raw.as_str())
}

/// A downloadable package in Adoptium's metadata.
#[derive(Debug, Clone)]
pub struct PackageInfo {
    pub link: String,
    pub checksum: String,
    pub name: String,
    pub size: Option<u64>,
}

/// One release in Adoptium's metadata.
#[derive(Debug, Clone)]
pub struct ReleaseInfo {
    pub binaries: Vec<PackageInfo>,
    pub release_name: String,
}

pub open spec fn no_release_text(major: nat) -> Seq<char> {
    "Adoptium 没有 Java "@ + decimal(major) + " 的 GA 版本"@
}

pub open spec fn no_binaries_text() -> Seq<char> {
    "Adoptium 元数据缺 binaries"@
}

/// The package to install: the first binary of the first release.
pub fn select_package(releases: Vec<ReleaseInfo>, major: u32) -> (r: Result<PackageInfo, String>)
    ensures
        releases@.len() == 0 ==> (r matches Err(m) && m@ == no_release_text(major as nat)),
        releases@.len() > 0 && releases@[0].binaries@.len() == 0 ==> (r matches Err(m) && m@
            == no_binaries_text()),
        releases@.len() > 0 && releases@[0].binaries@.len() > 0 ==> r == Ok::<PackageInfo, String>(
            releases@[0].binaries@[0],
        ),
{
    let mut releases = releases;
    if releases.len() == 0 {
        let a = concat("Adoptium 没有 Java ", u64_to_string(major as u64).as_str());
        return Err(cat(a, " 的 GA 版本"));
    }
    let mut rel = releases.swap_remove(0);
    if rel.binaries.len() == 0 {
        return Err(owned("Adoptium 元数据缺 binaries"));
    }
    Ok(rel.binaries.swap_remove(0))
}

/// The directory a JRE of `major` is installed into, under the JDK cache.
pub fn jdk_target_dir(jdk_cache_root: &str, major: u32) -> (r: String)
    ensures
        r@ == join_s(jdk_cache_root@, "jdk-"@ + decimal(major as nat)),
{
    let n = concat("jdk-", u64_to_string(major as u64).as_str());
    join(jdk_cache_root, n.as_str())
}

/// Where a package is downloaded to before it is checked.
pub fn tmp_archive_path(target_dir: &str, package_name: &str) -> (r: String)
    ensures
        r@ == join_s(target_dir@, ".tmp."@ + package_name@),
{
    let n = concat(".tmp.", package_name);
    join(target_dir, n.as_str())
}

/// Where an archive is unpacked before its runtime root is moved up.
pub fn extract_root(target_dir: &str) -> (r: String)
    ensures
        r@ == join_s(target_dir@, ".extract"@),
{
    join(target_dir, ".extract")
}

/// One step of the search for the unpacked runtime's root (the directory
/// that holds `bin/java`): the directory just taken from the stack is the
/// root when it has the binary; otherwise its subdirectories are pushed.
pub fn java_root_step(stack: &mut Vec<String>, dir: String, has_java: bool, subdirs: Vec<String>) -> (r:
    Option<String>)
    ensures
        has_java ==> (r matches Some(d) && d@ == dir@) && final(stack)@ == old(stack)@,
        !has_java ==> r is None && final(stack)@ == old(stack)@ + subdirs@,
{
    if has_java {
        return Some(dir);
    }
    let mut subdirs = subdirs;
    stack.append(&mut subdirs);
    None
}

} // verus!
