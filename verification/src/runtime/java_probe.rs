//! Java runtime discovery: reading `java -version` output and choosing a
//! runtime for a required major.
//!
//! Running `java -version` and scanning `JAVA_HOME`/`PATH` happen outside;
//! this module decides what the output means and which runtime to use.
use crate::paths::{join, join_s};
use crate::runtime::mc_versions::u32_max;
use crate::text::{
    chars_of, find_chars, find_s, owned, parse_uint, parse_uint_s, pieces_view, slice_skip,
    slice_to_vec_range, split_chars, split_s, starts_with, starts_with_s, str_eq,
};
use vstd::prelude::*;

verus! {

/// A Java runtime that was found.
#[derive(Debug, Clone)]
pub struct JavaInfo {
    pub path: String,
    pub major: u32,
    pub vendor: Option<String>,
    /// Where it was found: `JAVA_HOME`, `PATH`, `managed` or `config`.
    pub source: &'static str,
}

/// The major version in `java -version` output: the text between
/// `version "` and the next `"`; `1.x` versions count by `x`.
pub open spec fn parse_major_s(s: Seq<char>) -> Option<nat> {
    match find_s(s, "version \""@) {
        None => None,
        Some(i) => {
            let rest = s.skip(i + 9);
            match find_s(rest, seq!['"']) {
                None => None,
                Some(e) => {
                    let v = rest.take(e);
                    let ps = split_s(v, '.');
                    if starts_with_s(v, "1."@) {
                        if ps.len() >= 2 {
                            parse_uint_s(ps[1], u32_max())
                        } else {
                            None
                        }
                    } else {
                        parse_uint_s(ps[0], u32_max())
                    }
                },
            }
        },
    }
}

/// Reads the Java major from `java -version` output.
pub fn parse_major(s: &str) -> (r: Option<u32>)
    ensures
        match parse_major_s(s@) {
            Some(m) => r == Some(m as u32),
            None => r is None,
        },
{
    let c = chars_of(s);
    let pat = chars_of("version \"");
    proof {
        reveal_strlit("version \"");
    }
    let i = match find_chars(c.as_slice(), pat.as_slice()) {
        Some(i) => i,
        None => return None,
    };
    assert(pat@.len() == 9);
    assert(c@.len() == c.len());
    let rest = slice_skip(c.as_slice(), i + 9);
    let quote = ['"'];
    assert(quote@ =~= seq!['"']);
    let e = match find_chars(rest.as_slice(), &quote) {
        Some(e) => e,
        None => return None,
    };
    let v = slice_to_vec_range(rest.as_slice(), 0, e);
    assert(v@ =~= rest@.take(e as int));
    assert(rest@ == s@.skip(i + 9));
    assert(find_s(s@, "version \""@) == Some(i as int));
    assert(find_s(rest@, seq!['"']) == Some(e as int));
    let ps = split_chars(v.as_slice(), '.');
    let one = ['1', '.'];
    assert(one@ =~= "1."@) by {
        reveal_strlit("1.");
    }
    let m = if starts_with(v.as_slice(), &one) {
        if ps.len() >= 2 {
            assert(ps@[1]@ == pieces_view(ps@)[1]);
            parse_uint(ps[1].as_slice(), 0xffff_ffff)
        } else {
            None
        }
    } else {
        assert(ps@[0]@ == pieces_view(ps@)[0]);
        parse_uint(ps[0].as_slice(), 0xffff_ffff)
    };
    match m {
        Some(x) => Some(x as u32),
        None => None,
    }
}

pub open spec fn contains_s(s: Seq<char>, p: Seq<char>) -> bool {
    find_s(s, p) is Some
}

/// The vendor named in `java -version` output, checked in a fixed order.
pub open spec fn vendor_s(s: Seq<char>) -> Option<Seq<char>> {
    if contains_s(s, "Temurin"@) {
        Some("Eclipse Temurin"@)
    } else if contains_s(s, "OpenJDK"@) {
        Some("OpenJDK"@)
    } else if contains_s(s, "HotSpot"@) {
        Some("Oracle HotSpot"@)
    } else if contains_s(s, "GraalVM"@) {
        Some("GraalVM"@)
    } else {
        None
    }
}

fn contains_str(c: &[char], p: &str) -> (r: bool)
    ensures
        r == contains_s(c@, p@),
{
    let pc = chars_of(p);
    find_chars(c, pc.as_slice()).is_some()
}

/// Names the vendor mentioned in `java -version` output.
pub fn detect_vendor(s: &str) -> (r: Option<String>)
    ensures
        match vendor_s(s@) {
            Some(v) => r is Some && r->0@ == v,
            None => r is None,
        },
{
    let c = chars_of(s);
    if contains_str(c.as_slice(), "Temurin") {
        Some(owned("Eclipse Temurin"))
    } else if contains_str(c.as_slice(), "OpenJDK") {
        Some(owned("OpenJDK"))
    } else if contains_str(c.as_slice(), "HotSpot") {
        Some(owned("Oracle HotSpot"))
    } else if contains_str(c.as_slice(), "GraalVM") {
        Some(owned("GraalVM"))
    } else {
        None
    }
}

/// What `inspect` makes of a runtime at `path` whose `java -version` wrote
/// `output`: nothing when no major can be read.
pub fn inspect_output(path: &str, output: &str, source: &'static str) -> (r: Option<JavaInfo>)
    ensures
        match parse_major_s(output@) {
            None => r is None,
            Some(m) => r is Some && r->0.major == m && r->0.path@ == path@ && r->0.source
                == source && match vendor_s(output@) {
                Some(v) => r->0.vendor is Some && r->0.vendor->0@ == v,
                None => r->0.vendor is None,
            },
        },
{
    let major = match parse_major(output) {
        Some(m) => m,
        None => return None,
    };
    let vendor = detect_vendor(output);
    Some(JavaInfo { path: owned(path), major, vendor, source })
}

/// File name of the Java launcher on this platform.
pub fn java_bin_name(windows: bool) -> (r: &'static str)
    ensures
        r@ == (if windows {
            "java.exe"@
        } else {
            "java"@
        }),
{
    if windows {
        "java.exe"
    } else {
        "java"
    }
}

/// `<dir>/bin/<java launcher>`.
pub fn bin_in(dir: &str, windows: bool) -> (r: String)
    ensures
        r@ == join_s(join_s(dir@, "bin"@), if windows {
            "java.exe"@
        } else {
            "java"@
        }),
{
    let b = join(dir, "bin");
    join(b.as_str(), java_bin_name(windows))
}

/// The runtime `pick_for` chooses: among those with `major >= required`,
/// one of the smallest major, the first such in the given order.
pub open spec fn is_pick(c: Seq<JavaInfo>, required: u32, k: int) -> bool {
    &&& 0 <= k < c.len()
    &&& c[k].major >= required
    &&& forall|j: int| 0 <= j < c.len() && c[j].major >= required ==> c[k].major <= c[j].major
    &&& forall|j: int| 0 <= j < k && c[j].major >= required ==> c[j].major > c[k].major
}

/// Chooses a runtime that satisfies `required_major`, preferring the
/// smallest major (the most conservative choice).
pub fn pick_for(required_major: u32, candidates: Vec<JavaInfo>) -> (r: Option<JavaInfo>)
    ensures
        r is None <==> (forall|j: int|
            0 <= j < candidates@.len() ==> candidates@[j].major < required_major),
        r is Some ==> exists|k: int| is_pick(candidates@, required_major, k) && r->0 == candidates@[k],
{
    let mut best: Option<usize> = None;
    let mut i: usize = 0;
    while i < candidates.len()
        invariant
            i <= candidates@.len(),
            match best {
                None => forall|j: int| 0 <= j < i ==> candidates@[j].major < required_major,
                Some(k) => is_pick(candidates@.take(i as int), required_major, k as int),
            },
        decreases candidates.len() - i,
    {
        let m = candidates[i].major;
        if m >= required_major {
            match best {
                None => {
                    best = Some(i);
                },
                Some(k) => {
                    if m < candidates[k].major {
                        best = Some(i);
                    }
                },
            }
        }
        i += 1;
        proof {
            let t = candidates@.take(i as int);
            match best {
                Some(k) => {
                    assert(t[k as int] == candidates@[k as int]);
                    assert forall|j: int| 0 <= j < t.len() implies t[j] == candidates@[j] by {}
                },
                None => {},
            }
        }
    }
    assert(candidates@.take(candidates@.len() as int) =~= candidates@);
    match best {
        None => None,
        Some(k) => {
            let mut c = candidates;
            Some(c.remove(k))
        },
    }
}

/// Keeps the first of the runtimes that share a key (their canonical
/// path), in order.
pub open spec fn first_of_key(keys: Seq<Seq<char>>, i: int) -> bool {
    forall|j: int| 0 <= j < i ==> keys[j] != keys[i]
}

pub open spec fn key_views(keys: Seq<String>) -> Seq<Seq<char>> {
    Seq::new(keys.len(), |k: int| keys[k]@)
}

/// `r` is the runtimes of `found` whose key did not occur before, in order
/// (`idx` says where each came from).
pub open spec fn deduped(found: Seq<JavaInfo>, keys: Seq<String>, r: Seq<JavaInfo>, idx: Seq<int>) -> bool {
    &&& idx.len() == r.len()
    &&& forall|a: int| 0 <= a < idx.len() ==> 0 <= #[trigger] idx[a] < found.len() && r[a] == found[idx[a]]
    &&& forall|a: int, b: int| 0 <= a < b < idx.len() ==> #[trigger] idx[a] < #[trigger] idx[b]
    &&& forall|i: int| 0 <= i < found.len() ==> (#[trigger] first_of_key(key_views(keys), i)
        <==> exists|a: int| 0 <= a < idx.len() && idx[a] == i)
}

/// Drops runtimes found twice under the same canonical path (`keys`), as
/// `HashSet::insert` in a `retain` does: the first stays.
pub fn dedupe_by_path(found: Vec<JavaInfo>, keys: Vec<String>) -> (r: Vec<JavaInfo>)
    requires
        found@.len() == keys@.len(),
    ensures
        exists|idx: Seq<int>| #[trigger] deduped(found@, keys@, r@, idx),
{
    let ghost ks = key_views(keys@);
    let ghost src = found@;
    let mut rest = found;
    let mut out: Vec<JavaInfo> = Vec::new();
    let ghost mut idx: Seq<int> = Seq::empty();
    let mut i: usize = 0;
    let n = keys.len();
    while i < n
        invariant
            i <= n,
            n == keys@.len(),
            src.len() == n,
            ks == key_views(keys@),
            rest@ == src.skip(i as int),
            idx.len() == out@.len(),
            forall|a: int| 0 <= a < idx.len() ==> 0 <= #[trigger] idx[a] < i && out@[a] == src[idx[a]],
            forall|a: int, b: int| 0 <= a < b < idx.len() ==> #[trigger] idx[a] < #[trigger] idx[b],
            forall|q: int| 0 <= q < i ==> (first_of_key(ks, q) <==> exists|a: int|
                0 <= a < idx.len() && idx[a] == q),
        decreases n - i,
    {
        let item = rest.remove(0);
        assert(item == src[i as int]);
        assert(rest@ =~= src.skip(i + 1));
        let mut seen = false;
        let mut j: usize = 0;
        while j < i
            invariant
                j <= i,
                i < n,
                n == keys@.len(),
                ks == key_views(keys@),
                seen == exists|q: int| 0 <= q < j && ks[q] == ks[i as int],
            decreases i - j,
        {
            assert(ks[j as int] == keys@[j as int]@);
            assert(ks[i as int] == keys@[i as int]@);
            if str_eq(keys[j].as_str(), keys[i].as_str()) {
                seen = true;
            }
            j += 1;
        }
        let ghost old_idx = idx;
        if !seen {
            out.push(item);
            proof {
                idx = idx.push(i as int);
            }
        }
        proof {
            assert forall|q: int| 0 <= q < i + 1 implies (first_of_key(ks, q) <==> exists|a: int|
                0 <= a < idx.len() && idx[a] == q) by {
                if q == i {
                    if !seen {
                        assert(idx[idx.len() - 1] == q);
                    } else {
                        let w = choose|w: int| 0 <= w < i && ks[w] == ks[i as int];
                        assert(!first_of_key(ks, q));
                        if exists|a: int| 0 <= a < idx.len() && idx[a] == q {
                            let a = choose|a: int| 0 <= a < idx.len() && idx[a] == q;
                            assert(idx[a] < i);
                        }
                    }
                } else {
                    if exists|a: int| 0 <= a < old_idx.len() && old_idx[a] == q {
                        let a = choose|a: int| 0 <= a < old_idx.len() && old_idx[a] == q;
                        assert(idx[a] == q);
                    }
                    if exists|a: int| 0 <= a < idx.len() && idx[a] == q {
                        let a = choose|a: int| 0 <= a < idx.len() && idx[a] == q;
                        assert(a < old_idx.len());
                        assert(old_idx[a] == q);
                    }
                }
            }
        }
        i += 1;
    }
    assert(deduped(src, keys@, out@, idx));
    out
}

} // verus!
