//! PaperMC downloads: which API a version uses, the URLs asked, the names
//! of cached jars, which build is chosen and when a file is accepted.
//!
//! Versions starting with `1.` use the v2 API (through the configured
//! mirror); newer version numbers use the v3 API.  Cached jars are named
//! `paper-<version>-<build>.jar`.  The HTTP requests, hashing and files are
//! the caller's.
use crate::runtime::mirrors::{rewrite_s, Mirror, Upstream};
use crate::text::{
    chars_of, concat, decimal, ends_with, lower_c, owned, parse_uint, parse_uint_s, slice_to_vec_range,
    starts_with, starts_with_s, str_starts_with, string_of, u64_to_string, lemma_decimal_digits,
    all_digits, digits_value,
};
use vstd::prelude::*;

verus! {

pub open spec fn paper_api_v2() -> Seq<char> {
    "https://api.papermc.io/v2/projects/paper"@
}

pub open spec fn paper_api_v3() -> Seq<char> {
    "https://fill.papermc.io/v3/projects/paper"@
}

/// A jar in the download cache.
#[derive(Debug, Clone)]
pub struct CachedPaper {
    pub version: String,
    pub build: u64,
    pub jar_path: String,
    pub size: u64,
}

/// `1.x` versions are served by the v2 API, everything else by v3.
pub fn is_legacy_version(version: &str) -> (r: bool)
    ensures
        r == starts_with_s(version@, "1."@),
{
    str_starts_with(version, "1.")
}

fn cat(a: String, b: &str) -> (r: String)
    ensures
        r@ == a@ + b@,
{
    concat(a.as_str(), b)
}

pub open spec fn v2_version_url_s(version: Seq<char>) -> Seq<char> {
    paper_api_v2() + "/versions/"@ + version
}

pub open spec fn v2_build_url_s(version: Seq<char>, build: nat) -> Seq<char> {
    v2_version_url_s(version) + "/builds/"@ + decimal(build)
}

pub open spec fn v2_download_url_s(version: Seq<char>, build: nat, name: Seq<char>) -> Seq<char> {
    v2_build_url_s(version, build) + "/downloads/"@ + name
}

pub open spec fn v3_builds_url_s(version: Seq<char>) -> Seq<char> {
    paper_api_v3() + "/versions/"@ + version + "/builds"@
}

fn v2_version_raw(version: &str) -> (r: String)
    ensures
        r@ == v2_version_url_s(version@),
{
    let a = concat("https://api.papermc.io/v2/projects/paper", "/versions/");
    cat(a, version)
}

fn v2_build_raw(version: &str, build: u64) -> (r: String)
    ensures
        r@ == v2_build_url_s(version@, build as nat),
{
    let a = cat(v2_version_raw(version), "/builds/");
    cat(a, u64_to_string(build).as_str())
}

/// The v2 URL that lists a version's builds, through the mirror.
pub fn v2_version_url(version: &str, mirror: &Mirror) -> (r: String)
    ensures
        r@ == rewrite_s(mirror.key@, Upstream::PaperApi, v2_version_url_s(version@)),
{
    mirror.rewrite(Upstream::PaperApi, v2_version_raw(version).as_str())
}

/// The v2 URL that describes one build, through the mirror.
pub fn v2_build_url(version: &str, build: u64, mirror: &Mirror) -> (r: String)
    ensures
        r@ == rewrite_s(mirror.key@, Upstream::PaperApi, v2_build_url_s(version@, build as nat)),
{
    mirror.rewrite(Upstream::PaperApi, v2_build_raw(version, build).as_str())
}

/// The v2 URL of a build's jar, through the mirror.
pub fn v2_download_url(version: &str, build: u64, name: &str, mirror: &Mirror) -> (r: String)
    ensures
        r@ == rewrite_s(
            mirror.key@,
            Upstream::PaperApi,
            v2_download_url_s(version@, build as nat, name@),
        ),
{
    let a = cat(v2_build_raw(version, build), "/downloads/");
    let raw = cat(a, name);
    mirror.rewrite(Upstream::PaperApi, raw.as_str())
}

/// The v3 URL that lists a version's builds; v3 is never mirrored.
pub fn v3_builds_url(version: &str) -> (r: String)
    ensures
        r@ == v3_builds_url_s(version@),
{
    let a = concat("https://fill.papermc.io/v3/projects/paper", "/versions/");
    let b = cat(a, version);
    cat(b, "/builds")
}

// ---------------------------------------------------------------------------
// Cache names
// ---------------------------------------------------------------------------

pub open spec fn cache_name_s(version: Seq<char>, build: nat) -> Seq<char> {
    "paper-"@ + version + "-"@ + decimal(build) + ".jar"@
}

pub open spec fn tmp_name_s(version: Seq<char>, build: nat) -> Seq<char> {
    ".tmp."@ + cache_name_s(version, build)
}

/// The cached jar's file name.
pub fn cache_file_name(version: &str, build: u64) -> (r: String)
    ensures
        r@ == cache_name_s(version@, build as nat),
{
    let a = concat("paper-", version);
    let b = cat(a, "-");
    let c = cat(b, u64_to_string(build).as_str());
    cat(c, ".jar")
}

/// The name a download is written to before it is checked and renamed.
pub fn tmp_file_name(version: &str, build: u64) -> (r: String)
    ensures
        r@ == tmp_name_s(version@, build as nat),
{
    let n = cache_file_name(version, build);
    concat(".tmp.", n.as_str())
}

/// Index of the last `c` in `s`.
pub open spec fn last_index_of(s: Seq<char>, c: char) -> Option<int>
    decreases s.len(),
{
    if s.len() == 0 {
        None
    } else if s.last() == c {
        Some(s.len() - 1)
    } else {
        last_index_of(s.drop_last(), c)
    }
}

proof fn lemma_last_index_of(s: Seq<char>, c: char)
    ensures
        match last_index_of(s, c) {
            Some(k) => 0 <= k < s.len() && s[k] == c && forall|j: int|
                k < j < s.len() ==> s[j] != c,
            None => forall|j: int| 0 <= j < s.len() ==> s[j] != c,
        },
    decreases s.len(),
{
    if s.len() > 0 && s.last() != c {
        let t = s.drop_last();
        lemma_last_index_of(t, c);
        assert forall|j: int| 0 <= j < t.len() implies t[j] == s[j] by {}
    }
}

proof fn lemma_last_index_of_unique(s: Seq<char>, c: char, k: int)
    requires
        0 <= k < s.len(),
        s[k] == c,
        forall|j: int| k < j < s.len() ==> s[j] != c,
    ensures
        last_index_of(s, c) == Some(k),
    decreases s.len(),
{
    if s.last() != c {
        lemma_last_index_of_unique(s.drop_last(), c, k);
    }
}

/// What the cache listing reads from a file name: `paper-`, then the
/// version, a `-`, the build number and `.jar`; the version runs up to the
/// last `-`.
pub open spec fn parse_cache_name_s(name: Seq<char>) -> Option<(Seq<char>, nat)> {
    if !starts_with_s(name, "paper-"@) || !(name.len() >= 10 && name.subrange(
        name.len() - 4,
        name.len() as int,
    ) == ".jar"@) {
        None
    } else {
        let rest = name.subrange(6, name.len() - 4);
        match last_index_of(rest, '-') {
            None => None,
            Some(k) => match parse_uint_s(rest.skip(k + 1), u64::MAX as nat) {
                Some(b) => Some((rest.take(k), b)),
                None => None,
            },
        }
    }
}

/// Reads a cached jar's version and build back from its file name.
pub fn parse_cache_file_name(name: &str) -> (r: Option<(String, u64)>)
    ensures
        match parse_cache_name_s(name@) {
            Some((v, b)) => r matches Some((rv, rb)) && rv@ == v && rb == b,
            None => r is None,
        },
{
    let c = chars_of(name);
    let p = chars_of("paper-");
    let j = chars_of(".jar");
    proof {
        reveal_strlit("paper-");
        reveal_strlit(".jar");
    }
    if c.len() < 10 || !starts_with(c.as_slice(), p.as_slice()) || !ends_with(c.as_slice(), j.as_slice()) {
        return None;
    }
    let rest = slice_to_vec_range(c.as_slice(), 6, c.len() - 4);
    let mut k: usize = rest.len();
    while k > 0 && rest[k - 1] != '-'
        invariant
            k <= rest@.len(),
            forall|j: int| k <= j < rest@.len() ==> rest@[j] != '-',
        decreases k,
    {
        k -= 1;
    }
    proof {
        lemma_last_index_of(rest@, '-');
    }
    if k == 0 {
        return None;
    }
    proof {
        lemma_last_index_of_unique(rest@, '-', k - 1);
    }
    let digits = slice_to_vec_range(rest.as_slice(), k, rest.len());
    assert(digits@ =~= rest@.skip(k as int));
    match parse_uint(digits.as_slice(), u64::MAX) {
        Some(b) => {
            let v = slice_to_vec_range(rest.as_slice(), 0, k - 1);
            assert(v@ =~= rest@.take(k - 1));
            Some((string_of(v.as_slice()), b))
        },
        None => None,
    }
}

/// Reading a cache file name gives back the version and build it was made
/// from.
pub proof fn lemma_cache_name_roundtrip(version: Seq<char>, build: nat)
    requires
        build <= u64::MAX,
    ensures
        parse_cache_name_s(cache_name_s(version, build)) == Some((version, build)),
{
    reveal_strlit("paper-");
    reveal_strlit(".jar");
    reveal_strlit("-");
    let d = decimal(build);
    lemma_decimal_digits(build);
    let name = cache_name_s(version, build);
    assert(name.subrange(0, 6) =~= "paper-"@);
    assert(name.subrange(name.len() - 4, name.len() as int) =~= ".jar"@);
    let rest = name.subrange(6, name.len() - 4);
    assert(rest =~= version + "-"@ + d);
    let k = version.len() as int;
    assert(rest[k] == '-');
    assert forall|j: int| k < j < rest.len() implies rest[j] != '-' by {
        assert(rest[j] == d[j - k - 1]);
        assert(crate::text::is_digit(d[j - k - 1]));
    }
    lemma_last_index_of_unique(rest, '-', k);
    assert(rest.skip(k + 1) =~= d);
    assert(rest.take(k) =~= version);
    assert(d.len() > 0 && d[0] != '+') by {
        assert(crate::text::is_digit(d[0]));
    }
}

// ---------------------------------------------------------------------------
// Builds and checksums
// ---------------------------------------------------------------------------

/// The newest build of a v2 version's build list: its last entry.
pub fn latest_v2_build(builds: &[u64]) -> (r: Result<u64, String>)
    ensures
        builds@.len() > 0 ==> r == Ok::<u64, String>(builds@.last()),
        builds@.len() == 0 ==> (r matches Err(m) && m@ == "没有 build"@),
{
    if builds.len() == 0 {
        return Err(owned("没有 build"));
    }
    Ok(builds[builds.len() - 1])
}

pub open spec fn build_not_found_text(b: nat) -> Seq<char> {
    "build "@ + decimal(b) + " not found"@
}

pub open spec fn no_builds_text(version: Seq<char>) -> Seq<char> {
    "no builds for "@ + version
}

/// Which entry of a v3 build list to use: the one with the requested id
/// (the first such), or the last one when no build was requested.
pub fn select_v3_build(ids: &[u64], build: Option<u64>, version: &str) -> (r: Result<usize, String>)
    ensures
        match build {
            Some(b) => match r {
                Ok(i) => i < ids@.len() && ids@[i as int] == b && forall|j: int|
                    0 <= j < i ==> ids@[j] != b,
                Err(m) => m@ == build_not_found_text(b as nat) && forall|j: int|
                    0 <= j < ids@.len() ==> ids@[j] != b,
            },
            None => match r {
                Ok(i) => ids@.len() > 0 && i == ids@.len() - 1,
                Err(m) => ids@.len() == 0 && m@ == no_builds_text(version@),
            },
        },
{
    match build {
        Some(b) => {
            let mut i: usize = 0;
            while i < ids.len()
                invariant
                    i <= ids@.len(),
                    build == Some(b),
                    forall|j: int| 0 <= j < i ==> ids@[j] != b,
                decreases ids@.len() - i,
            {
                if ids[i] == b {
                    return Ok(i);
                }
                i += 1;
            }
            let a = concat("build ", u64_to_string(b).as_str());
            Err(cat(a, " not found"))
        },
        None => {
            if ids.len() == 0 {
                return Err(concat("no builds for ", version));
            }
            Ok(ids.len() - 1)
        },
    }
}

/// `eq_ignore_ascii_case`: equal lengths and equal after ASCII lowercasing.
pub open spec fn eq_ignore_ascii_case_s(a: Seq<char>, b: Seq<char>) -> bool {
    a.len() == b.len() && forall|i: int| 0 <= i < a.len() ==> lower_c(#[trigger] a[i]) == lower_c(
        b[i],
    )
}

/// A file is accepted when its SHA-256 hex digest matches the expected one,
/// ignoring ASCII case.
pub fn checksum_matches(actual: &str, expected: &str) -> (r: bool)
    ensures
        r == eq_ignore_ascii_case_s(actual@, expected@),
{
    let a = chars_of(actual);
    let b = chars_of(expected);
    if a.len() != b.len() {
        return false;
    }
    let mut i: usize = 0;
    while i < a.len()
        invariant
            i <= a@.len(),
            a@.len() == b@.len(),
            a@ == actual@,
            b@ == expected@,
            forall|j: int| 0 <= j < i ==> lower_c(#[trigger] a@[j]) == lower_c(b@[j]),
        decreases a@.len() - i,
    {
        if crate::text::lower_char(a[i]) != crate::text::lower_char(b[i]) {
            return false;
        }
        i += 1;
    }
    true
}

pub open spec fn checksum_failure_text(want: Seq<char>, got: Seq<char>) -> Seq<char> {
    "SHA-256 校验失败：want "@ + want + " got "@ + got
}

/// The check made on a finished download: a digest that does not match
/// fails the install.
pub fn verify_download(actual: &str, expected: &str) -> (r: Result<(), String>)
    ensures
        eq_ignore_ascii_case_s(actual@, expected@) ==> r is Ok,
        !eq_ignore_ascii_case_s(actual@, expected@) ==> (r matches Err(m) && m@
            == checksum_failure_text(expected@, actual@)),
{
    if checksum_matches(actual, expected) {
        return Ok(());
    }
    let a = concat("SHA-256 校验失败：want ", expected);
    let b = cat(a, " got ");
    Err(cat(b, actual))
}

/// The cache listing's order: by version text, then build.
pub open spec fn cached_key(p: CachedPaper) -> (u64, Seq<char>, u64) {
    (0, p.version@, p.build)
}

pub open spec fn cached_key_fn() -> spec_fn(CachedPaper) -> (u64, Seq<char>, u64) {
    |c: CachedPaper| cached_key(c)
}

/// Orders cached jars by version, then build.
pub fn sort_cached(v: Vec<CachedPaper>) -> (r: Vec<CachedPaper>)
    ensures
        exists|p: Seq<int>| #[trigger] crate::sorting::sorted_by(v@, cached_key_fn(), r@, p),
{
    let mut keys: Vec<crate::sorting::SortKey> = Vec::new();
    let mut i: usize = 0;
    while i < v.len()
        invariant
            i <= v@.len(),
            keys@.len() == i,
            forall|j: int| 0 <= j < i ==> crate::sorting::kv(#[trigger] keys@[j]) == cached_key_fn()(v@[j]),
        decreases v@.len() - i,
    {
        keys.push(crate::sorting::text_key(0, v[i].version.as_str(), v[i].build));
        i += 1;
    }
    crate::sorting::sort_by_keys(v, keys, Ghost(cached_key_fn()))
}

} // verus!
