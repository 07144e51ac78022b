//! Whether the environment for a Minecraft version is ready: a suitable
//! Java and a cached Paper jar.
use crate::runtime::java_probe::{is_pick, pick_for, JavaInfo};
use crate::runtime::mc_versions::{required_java_major, required_java_major_s};
use crate::runtime::paper::CachedPaper;
use crate::text::{concat, decimal, str_eq, u64_to_string};
use vstd::prelude::*;

verus! {

#[derive(Debug)]
pub struct EnvCheck {
    pub need_java_major: u32,
    pub java: Option<JavaInfo>,
    pub paper: Option<CachedPaper>,
}

#[derive(Debug)]
pub struct EnvReady {
    pub java: JavaInfo,
    pub paper: CachedPaper,
}

/// The cached jar used for a version: among those of that version, one with
/// the highest build, the last such in listing order (`max_by_key`).
pub open spec fn is_paper_pick(c: Seq<CachedPaper>, version: Seq<char>, k: int) -> bool {
    &&& 0 <= k < c.len()
    &&& c[k].version@ == version
    &&& forall|j: int| 0 <= j < c.len() && c[j].version@ == version ==> c[j].build <= c[k].build
    &&& forall|j: int| k < j < c.len() && c[j].version@ == version ==> c[j].build < c[k].build
}

pub fn pick_paper(cached: Vec<CachedPaper>, version: &str) -> (r: Option<CachedPaper>)
    ensures
        r is None <==> (forall|j: int| 0 <= j < cached@.len() ==> cached@[j].version@ != version@),
        r matches Some(p) ==> exists|k: int| is_paper_pick(cached@, version@, k) && p == cached@[k],
{
    let mut best: Option<usize> = None;
    let mut i: usize = 0;
    while i < cached.len()
        invariant
            i <= cached@.len(),
            match best {
                None => forall|j: int| 0 <= j < i ==> cached@[j].version@ != version@,
                Some(k) => is_paper_pick(cached@.take(i as int), version@, k as int),
            },
        decreases cached.len() - i,
    {
        if str_eq(cached[i].version.as_str(), version) {
            match best {
                None => {
                    best = Some(i);
                },
                Some(k) => {
                    if cached[i].build >= cached[k].build {
                        best = Some(i);
                    }
                },
            }
        }
        i += 1;
        proof {
            let t = cached@.take(i as int);
            assert forall|j: int| 0 <= j < t.len() implies t[j] == cached@[j] by {}
        }
    }
    assert(cached@.take(cached@.len() as int) =~= cached@);
    match best {
        None => None,
        Some(k) => {
            let mut c = cached;
            Some(c.swap_remove(k))
        },
    }
}

/// `check_environment`: the Java major the version needs, the runtime that
/// would be used and the cached jar, from the runtimes found and the jars
/// in the cache.
pub fn check_environment(mc_version: &str, javas: Vec<JavaInfo>, cached: Vec<CachedPaper>) -> (r:
    EnvCheck)
    ensures
        r.need_java_major == required_java_major_s(mc_version@),
        r.java is None <==> (forall|j: int|
            0 <= j < javas@.len() ==> javas@[j].major < r.need_java_major),
        r.java matches Some(x) ==> exists|k: int|
            is_pick(javas@, r.need_java_major, k) && x == javas@[k],
        r.paper is None <==> (forall|j: int|
            0 <= j < cached@.len() ==> cached@[j].version@ != mc_version@),
        r.paper matches Some(p) ==> exists|k: int| is_paper_pick(cached@, mc_version@, k) && p == cached@[k],
{
    let need = required_java_major(mc_version);
    let java = pick_for(need, javas);
    let paper = pick_paper(cached, mc_version);
    EnvCheck { need_java_major: need, java, paper }
}

/// Both halves present: the environment is ready.
pub fn env_ready(chk: EnvCheck) -> (r: Option<EnvReady>)
    ensures
        (chk.java is Some && chk.paper is Some) <==> r is Some,
        r matches Some(e) ==> Some(e.java) == chk.java && Some(e.paper) == chk.paper,
{
    match (chk.java, chk.paper) {
        (Some(java), Some(paper)) => Some(EnvReady { java, paper }),
        _ => None,
    }
}

/// The label of a Java install task.
pub fn java_task_label(major: u32) -> (r: String)
    ensures
        r@ == "Java "@ + decimal(major as nat) + " (Adoptium Temurin)"@,
{
    let a = concat("Java ", u64_to_string(major as u64).as_str());
    concat(a.as_str(), " (Adoptium Temurin)")
}

/// The label of a Paper download task.
pub fn paper_task_label(version: &str, build: Option<u64>) -> (r: String)
    ensures
        match build {
            Some(b) => r@ == "PaperMC "@ + version@ + " build "@ + decimal(b as nat),
            None => r@ == "PaperMC "@ + version@ + " (latest)"@,
        },
{
    let a = concat("PaperMC ", version);
    match build {
        Some(b) => {
            let c = concat(a.as_str(), " build ");
            concat(c.as_str(), u64_to_string(b).as_str())
        },
        None => concat(a.as_str(), " (latest)"),
    }
}

} // verus!
