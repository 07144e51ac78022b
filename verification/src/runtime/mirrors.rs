//! Mirror rewriting of upstream download URLs.
//!
//! The user names a mirror (`"default"`, `"tuna"`, `"bmclapi"`, or a base
//! URL); official URLs are rewritten for the mirror, anything unknown is
//! left as it is.
use crate::text::{
    chars_of, owned, replace_chars, replace_s, slice_skip, starts_with, starts_with_s, string_of,
    trim_end_char, trim_end_char_s,
};
use vstd::prelude::*;

verus! {

/// Which upstream a URL belongs to, so that one service's URL is never
/// rewritten onto another service's mirror.
#[derive(Clone, Copy, Debug, PartialEq, Eq, Structural)]
pub enum Upstream {
    AdoptiumApi,
    AdoptiumDownload,
    PaperApi,
}

pub open spec fn upstream_base(u: Upstream) -> Seq<char> {
    match u {
        Upstream::AdoptiumApi => "https://api.adoptium.net"@,
        Upstream::AdoptiumDownload => "https://github.com/adoptium"@,
        Upstream::PaperApi => "https://api.papermc.io"@,
    }
}

impl Upstream {
    /// The official base URL of this upstream.
    pub fn base(&self) -> (r: &'static str)
        ensures
            r@ == upstream_base(*self),
    {
        match self {
            Upstream::AdoptiumApi => "https://api.adoptium.net",
            Upstream::AdoptiumDownload => "https://github.com/adoptium",
            Upstream::PaperApi => "https://api.papermc.io",
        }
    }
}

/// A configured download mirror.
#[derive(Clone, Debug)]
pub struct Mirror {
    /// The identifier given in the configuration.
    pub key: String,
}

/// TUNA only mirrors Adoptium's release files.
pub open spec fn rewrite_tuna_s(up: Upstream, url: Seq<char>) -> Seq<char> {
    match up {
        Upstream::AdoptiumDownload => replace_s(
            url,
            "https://github.com/adoptium/"@,
            "https://mirrors.tuna.tsinghua.edu.cn/Adoptium/"@,
        ),
        _ => url,
    }
}

/// BMCLAPI mirrors the Paper API with the same paths.
pub open spec fn rewrite_bmclapi_s(up: Upstream, url: Seq<char>) -> Seq<char> {
    match up {
        Upstream::PaperApi => replace_s(
            url,
            "https://api.papermc.io"@,
            "https://bmclapi2.bangbang93.com"@,
        ),
        _ => url,
    }
}

/// A custom base replaces the upstream's base when the URL starts with it.
pub open spec fn rewrite_custom_base_s(up: Upstream, url: Seq<char>, custom: Seq<char>) -> Seq<
    char,
> {
    if starts_with_s(url, upstream_base(up)) {
        custom + url.skip(upstream_base(up).len() as int)
    } else {
        url
    }
}

/// The URL that `Mirror::rewrite` produces.
pub open spec fn rewrite_s(key: Seq<char>, up: Upstream, url: Seq<char>) -> Seq<char> {
    if key == Seq::<char>::empty() || key == "default"@ {
        url
    } else if key == "tuna"@ {
        rewrite_tuna_s(up, url)
    } else if key == "bmclapi"@ {
        rewrite_bmclapi_s(up, url)
    } else if starts_with_s(key, "http"@) {
        rewrite_custom_base_s(up, url, trim_end_char_s(key, '/'))
    } else {
        url
    }
}

fn key_is(k: &[char], lit: &str) -> (r: bool)
    ensures
        r == (k@ == lit@),
{
    let l = chars_of(lit);
    if k.len() != l.len() {
        return false;
    }
    let r = starts_with(k, l.as_slice());
    assert(k@.subrange(0, l@.len() as int) =~= k@);
    r
}

fn rewrite_tuna(up: Upstream, url: &[char]) -> (r: Vec<char>)
    ensures
        r@ == rewrite_tuna_s(up, url@),
{
    match up {
        Upstream::AdoptiumDownload => {
            let from = chars_of("https://github.com/adoptium/");
            let to = chars_of("https://mirrors.tuna.tsinghua.edu.cn/Adoptium/");
            proof {
                reveal_strlit("https://github.com/adoptium/");
            }
            replace_chars(url, from.as_slice(), to.as_slice())
        },
        _ => slice_skip(url, 0),
    }
}

fn rewrite_bmclapi(up: Upstream, url: &[char]) -> (r: Vec<char>)
    ensures
        r@ == rewrite_bmclapi_s(up, url@),
{
    match up {
        Upstream::PaperApi => {
            let from = chars_of("https://api.papermc.io");
            let to = chars_of("https://bmclapi2.bangbang93.com");
            proof {
                reveal_strlit("https://api.papermc.io");
            }
            replace_chars(url, from.as_slice(), to.as_slice())
        },
        _ => slice_skip(url, 0),
    }
}

fn rewrite_custom_base(up: Upstream, url: &[char], custom: &[char]) -> (r: Vec<char>)
    ensures
        r@ == rewrite_custom_base_s(up, url@, custom@),
{
    let base = chars_of(up.base());
    if starts_with(url, base.as_slice()) {
        let mut out = slice_skip(custom, 0);
        let rest = slice_skip(url, base.len());
        let mut i: usize = 0;
        let ghost c0 = out@;
        while i < rest.len()
            invariant
                i <= rest@.len(),
                out@ == c0 + rest@.take(i as int),
            decreases rest.len() - i,
        {
            out.push(rest[i]);
            i += 1;
            assert(out@ =~= c0 + rest@.take(i as int));
        }
        assert(rest@.take(rest@.len() as int) =~= rest@);
        out
    } else {
        slice_skip(url, 0)
    }
}

impl Mirror {
    pub fn new(key: &str) -> (m: Mirror)
        ensures
            m.key@ == key@,
    {
        Mirror { key: owned(key) }
    }

    /// Rewrites an official URL for this mirror; URLs the mirror does not
    /// know are returned unchanged.
    pub fn rewrite(&self, upstream: Upstream, original: &str) -> (r: String)
        ensures
            r@ == rewrite_s(self.key@, upstream, original@),
    {
        let k = chars_of(self.key.as_str());
        let url = chars_of(original);
        if k.len() == 0 || key_is(k.as_slice(), "default") {
            assert(k@.len() == 0 ==> k@ =~= Seq::<char>::empty());
            return owned(original);
        }
        proof {
            reveal_strlit("default");
        }
        if key_is(k.as_slice(), "tuna") {
            let r = rewrite_tuna(upstream, url.as_slice());
            return string_of(r.as_slice());
        }
        if key_is(k.as_slice(), "bmclapi") {
            let r = rewrite_bmclapi(upstream, url.as_slice());
            return string_of(r.as_slice());
        }
        let http = chars_of("http");
        if starts_with(k.as_slice(), http.as_slice()) {
            let custom = trim_end_char(k.as_slice(), '/');
            let r = rewrite_custom_base(upstream, url.as_slice(), custom.as_slice());
            return string_of(r.as_slice());
        }
        owned(original)
    }
}

/// Whether `p` occurs anywhere in `s`.
pub open spec fn occurs(s: Seq<char>, p: Seq<char>) -> bool {
    exists|i: int| 0 <= i && i + p.len() <= s.len() && #[trigger] s.subrange(i, i + p.len()) == p
}

proof fn lemma_replace_absent(s: Seq<char>, from: Seq<char>, to: Seq<char>)
    requires
        !occurs(s, from),
    ensures
        replace_s(s, from, to) == s,
    decreases s.len(),
{
    if from.len() == 0 || s.len() < from.len() {
    } else {
        let z: int = 0;
        assert(s.subrange(z, z + from.len()) =~= s.take(from.len() as int));
        assert(s.take(from.len() as int) != from);
        let t = s.skip(1);
        assert forall|i: int| 0 <= i && i + from.len() <= t.len() implies #[trigger] t.subrange(i, i + from.len()) != from by {
            assert(t.subrange(i, i + from.len()) =~= s.subrange(i + 1, i + 1 + from.len()));
        }
        lemma_replace_absent(t, from, to);
        assert(seq![s[0]] + t =~= s);
    }
}

/// `Mirror::rewrite` leaves a URL as it is under the default mirror or an
/// unknown key, when the mirror does not serve that upstream (TUNA only
/// serves Adoptium's downloads, BMCLAPI only the Paper API), and whenever
/// the URL does not hold the upstream's official base.
pub proof fn lemma_rewrite_keeps(key: Seq<char>, up: Upstream, url: Seq<char>)
    ensures
        key == Seq::<char>::empty() || key == "default"@ ==> rewrite_s(key, up, url) == url,
        key != "tuna"@ && key != "bmclapi"@ && !starts_with_s(key, "http"@) ==> rewrite_s(key, up, url)
            == url,
        key == "tuna"@ && up != Upstream::AdoptiumDownload ==> rewrite_s(key, up, url) == url,
        key == "bmclapi"@ && up != Upstream::PaperApi ==> rewrite_s(key, up, url) == url,
        !occurs(url, upstream_base(up)) ==> rewrite_s(key, up, url) == url,
{
    reveal_strlit("default");
    reveal_strlit("tuna");
    reveal_strlit("bmclapi");
    reveal_strlit("https://github.com/adoptium/");
    reveal_strlit("https://github.com/adoptium");
    reveal_strlit("https://api.papermc.io");
    reveal_strlit("https://api.adoptium.net");
    assert("tuna"@.len() != "default"@.len());
    assert("bmclapi"@[0] != "default"@[0]);
    assert("bmclapi"@.len() != "tuna"@.len());
    if !occurs(url, upstream_base(up)) {
        let base = upstream_base(up);
        if starts_with_s(url, base) {
            let z: int = 0;
            assert(url.subrange(z, z + base.len()) == base);
        }
        match up {
            Upstream::AdoptiumDownload => {
                let from = "https://github.com/adoptium/"@;
                assert(from =~= base + seq!['/']);
                assert forall|i: int| 0 <= i && i + from.len() <= url.len() implies #[trigger] url.subrange(i, i + from.len()) != from by {
                    if url.subrange(i, i + from.len()) == from {
                        assert(url.subrange(i, i + base.len()) =~= from.subrange(0, base.len() as int));
                        assert(from.subrange(0, base.len() as int) =~= base);
                    }
                }
                lemma_replace_absent(url, from, "https://mirrors.tuna.tsinghua.edu.cn/Adoptium/"@);
            },
            Upstream::PaperApi => {
                lemma_replace_absent(url, base, "https://bmclapi2.bangbang93.com"@);
            },
            Upstream::AdoptiumApi => {},
        }
    }
}

} // verus!
