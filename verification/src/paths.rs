//! Layout of the data directory.
//!
//! Paths are strings joined with `/`, following `Path::join` on Unix: an
//! absolute segment replaces the base, otherwise a separator is inserted
//! unless the base is empty or already ends in one.
use crate::text::{chars_of, concat, owned, string_of, trim, trim_s};
use vstd::prelude::*;

verus! {

pub open spec fn join_s(base: Seq<char>, seg: Seq<char>) -> Seq<char> {
    if seg.len() > 0 && seg[0] == '/' {
        seg
    } else if base.len() == 0 || base.last() == '/' {
        base + seg
    } else {
        base + seq!['/'] + seg
    }
}

/// `Path::join` for `/`-separated paths.
pub fn join(base: &str, seg: &str) -> (r: String)
    ensures
        r@ == join_s(base@, seg@),
{
    let b = chars_of(base);
    let s = chars_of(seg);
    if s.len() > 0 && s[0] == '/' {
        return owned(seg);
    }
    if b.len() == 0 || b[b.len() - 1] == '/' {
        return concat(base, seg);
    }
    let mut v = b;
    v.push('/');
    let with_sep = string_of(v.as_slice());
    concat(with_sep.as_str(), seg)
}

/// `<data_dir>/auth.db`
pub fn auth_db(data_dir: &str) -> (r: String)
    ensures
        r@ == join_s(data_dir@, "auth.db"@),
{
    join(data_dir, "auth.db")
}

/// `<data_dir>/server`
pub fn server_dir(data_dir: &str) -> (r: String)
    ensures
        r@ == join_s(data_dir@, "server"@),
{
    join(data_dir, "server")
}

/// `<data_dir>/runtimes`
pub fn runtimes_dir(data_dir: &str) -> (r: String)
    ensures
        r@ == join_s(data_dir@, "runtimes"@),
{
    join(data_dir, "runtimes")
}

/// `<data_dir>/runtimes/jdk`
pub fn jdk_cache_root(data_dir: &str) -> (r: String)
    ensures
        r@ == join_s(join_s(data_dir@, "runtimes"@), "jdk"@),
{
    let rt = runtimes_dir(data_dir);
    join(rt.as_str(), "jdk")
}

/// `<data_dir>/runtimes/paper`
pub fn paper_cache(data_dir: &str) -> (r: String)
    ensures
        r@ == join_s(join_s(data_dir@, "runtimes"@), "paper"@),
{
    let rt = runtimes_dir(data_dir);
    join(rt.as_str(), "paper")
}

/// `<data_dir>/setup.lock`, held while the first owner is being created.
pub fn setup_lock(data_dir: &str) -> (r: String)
    ensures
        r@ == join_s(data_dir@, "setup.lock"@),
{
    join(data_dir, "setup.lock")
}

/// The platform's data directory for this application
/// (`directories::ProjectDirs::from("dev", "heralders", "HeraldMcServer")`,
/// its `data_dir()`), or `None` when no home directory is known.  It
/// depends on the environment, so nothing is claimed of it.
#[verifier::external_body]
fn project_data_dir() -> Option<String> {
    directories::ProjectDirs::from("dev", "heralders", "HeraldMcServer").map(
        |d| d.data_dir().to_string_lossy().into_owned(),
    )
}

/// The data directory chosen from the configured value, the working
/// directory and the platform default.
pub open spec fn data_dir_choice(configured: Option<Seq<char>>, cwd: Option<Seq<char>>, platform: Option<
    Seq<char>,
>) -> Seq<char> {
    match configured {
        Some(c) if trim_s(c).len() > 0 => {
            let t = trim_s(c);
            if t[0] == '/' {
                t
            } else {
                match cwd {
                    Some(d) => join_s(d, t),
                    None => join_s("."@, t),
                }
            }
        },
        _ => match platform {
            Some(p) => p,
            None => "./data"@,
        },
    }
}

/// Picks the data directory: a configured value (trimmed, made absolute
/// against the working directory), else the platform default, else `./data`.
pub fn choose_data_dir(configured: Option<&str>, cwd: Option<&str>, platform: Option<String>) -> (r:
    String)
    ensures
        r@ == data_dir_choice(
            match configured {
                Some(c) => Some(c@),
                None => None,
            },
            match cwd {
                Some(d) => Some(d@),
                None => None,
            },
            match platform {
                Some(p) => Some(p@),
                None => None,
            },
        ),
{
    match configured {
        Some(c) => {
            let t = trim(c);
            let tc = chars_of(t.as_str());
            if tc.len() > 0 {
                if tc[0] == '/' {
                    return t;
                }
                return match cwd {
                    Some(d) => join(d, t.as_str()),
                    None => join(".", t.as_str()),
                };
            }
        },
        None => {},
    }
    match platform {
        Some(p) => p,
        None => owned("./data"),
    }
}

/// `resolve_data_dir`: the configured directory when one is given, else the
/// platform's data directory for the application.  `cwd` is the process's
/// working directory, which relative configured paths are taken against.
pub fn resolve_data_dir(configured: Option<&str>, cwd: Option<&str>) -> (r: String)
    ensures
        configured matches Some(c) ==> (trim_s(c@).len() > 0 ==> r@ == data_dir_choice(
            Some(c@),
            match cwd {
                Some(d) => Some(d@),
                None => None,
            },
            None,
        )),
{
    let wanted = match configured {
        Some(c) => {
            let t = trim(c);
            t.as_str().len() > 0
        },
        None => false,
    };
    let platform = if wanted {
        None
    } else {
        project_data_dir()
    };
    choose_data_dir(configured, cwd, platform)
}

} // verus!
