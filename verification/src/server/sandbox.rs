//! Path sandbox: user- or AI-supplied relative paths are resolved under a
//! fixed root, refusing `..`, absolute paths and NUL.
//!
//! This is the lexical half.  The caller canonicalises an existing target
//! (or its parent) and the root on disk, and `within_root` decides whether
//! the first still lies under the second.
use crate::mcserver::props::lemma_split_append_plain;
use crate::paths::{join, join_s};
use crate::text::{
    chars_of, contains_char, is_ws, trim_end_s, trim_start_s, starts_with, starts_with_s, ends_with, ends_with_s, lower_chars, lower_s, owned, pieces_view,
    split_chars, split_s, string_of, trim_chars, trim_s, utf8_len, utf8_len_of,
};
use vstd::prelude::*;

verus! {

#[derive(Debug, Clone, Copy, PartialEq, Eq, Structural)]
pub enum SandboxError {
    /// The path is empty.
    Empty,
    /// Absolute paths are not allowed.
    Absolute,
    /// The path leaves the root (`..`).
    Escape,
    /// The name holds a NUL or another forbidden character.
    BadName,
}

pub open spec fn sandbox_message(e: SandboxError) -> Seq<char> {
    match e {
        SandboxError::Empty => "路径不能为空"@,
        SandboxError::Absolute => "不允许使用绝对路径"@,
        SandboxError::Escape => "路径越界（含 .. 或符号链接逃逸）"@,
        SandboxError::BadName => "文件名不合法（包含 NUL 等控制字符）"@,
    }
}

impl SandboxError {
    /// The message shown to the user.
    pub fn message(&self) -> (r: &'static str)
        ensures
            r@ == sandbox_message(*self),
    {
        match self {
            SandboxError::Empty => "路径不能为空",
            SandboxError::Absolute => "不允许使用绝对路径",
            SandboxError::Escape => "路径越界（含 .. 或符号链接逃逸）",
            SandboxError::BadName => "文件名不合法（包含 NUL 等控制字符）",
        }
    }
}

/// Pushes each path component onto `base`, skipping empty and `.` ones.
pub open spec fn push_components(base: Seq<char>, ps: Seq<Seq<char>>) -> Seq<char>
    decreases ps.len(),
{
    if ps.len() == 0 {
        base
    } else {
        let next = if ps[0] == Seq::<char>::empty() || ps[0] == seq!['.'] {
            base
        } else {
            join_s(base, ps[0])
        };
        push_components(next, ps.drop_first())
    }
}

pub open spec fn has_parent_component(ps: Seq<Seq<char>>) -> bool {
    exists|i: int| 0 <= i < ps.len() && ps[i] == seq!['.', '.']
}

/// Where `resolve` puts a user path under `root`, or why it refuses it.
pub open spec fn resolve_s(root: Seq<char>, user_path: Seq<char>) -> Result<Seq<char>, SandboxError> {
    let u = trim_s(user_path);
    let ps = split_s(u, '/');
    if u.len() == 0 {
        Err(SandboxError::Empty)
    } else if u.contains('\0') {
        Err(SandboxError::BadName)
    } else if u[0] == '/' {
        Err(SandboxError::Absolute)
    } else if has_parent_component(ps) {
        Err(SandboxError::Escape)
    } else {
        Ok(push_components(root, ps))
    }
}

/// Lexically resolves a relative `user_path` under `root`.
pub fn resolve(root: &str, user_path: &str) -> (r: Result<String, SandboxError>)
    ensures
        match resolve_s(root@, user_path@) {
            Ok(p) => r is Ok && r->Ok_0@ == p,
            Err(e) => r == Err::<String, SandboxError>(e),
        },
{
    let raw = chars_of(user_path);
    let u = trim_chars(raw.as_slice());
    if u.len() == 0 {
        return Err(SandboxError::Empty);
    }
    if contains_char(u.as_slice(), '\0') {
        return Err(SandboxError::BadName);
    }
    if u[0] == '/' {
        return Err(SandboxError::Absolute);
    }
    let ps = split_chars(u.as_slice(), '/');
    let ghost pv = pieces_view(ps@);
    let mut out = owned(root);
    let mut i: usize = 0;
    assert(pv.skip(0) =~= pv);
    while i < ps.len()
        invariant
            i <= ps@.len(),
            pv == pieces_view(ps@),
            pv == split_s(trim_s(user_path@), '/'),
            u@ == trim_s(user_path@),
            u@.len() > 0,
            !u@.contains('\0'),
            u@[0] != '/',
            forall|k: int| 0 <= k < i ==> pv[k] != seq!['.', '.'],
            push_components(root@, pv) == push_components(out@, pv.skip(i as int)),
        decreases ps.len() - i,
    {
        let seg = &ps[i];
        assert(seg@ == pv[i as int]);
        assert(pv.skip(i as int).drop_first() =~= pv.skip(i + 1));
        assert(pv.skip(i as int)[0] == pv[i as int]);
        if seg.len() == 2 && seg[0] == '.' && seg[1] == '.' {
            assert(seg@ =~= seq!['.', '.']);
            return Err(SandboxError::Escape);
        }
        assert(seg@ != seq!['.', '.']) by {
            if seg@ == seq!['.', '.'] {
                assert(seg@.len() == 2 && seg@[0] == '.' && seg@[1] == '.');
            }
        }
        if seg.len() == 0 || (seg.len() == 1 && seg[0] == '.') {
            assert(seg@.len() == 0 ==> seg@ =~= Seq::<char>::empty());
            assert(seg@.len() == 1 && seg@[0] == '.' ==> seg@ =~= seq!['.']);
        } else {
            assert(seg@ != Seq::<char>::empty());
            assert(seg@ != seq!['.']) by {
                if seg@ == seq!['.'] {
                    assert(seg@.len() == 1);
                }
            }
            let s = string_of(seg.as_slice());
            out = join(out.as_str(), s.as_str());
        }
        i += 1;
    }
    assert(pv.skip(pv.len() as int) =~= Seq::<Seq<char>>::empty());
    assert(!has_parent_component(pv));
    Ok(out)
}

pub proof fn lemma_push_components_under(base: Seq<char>, ps: Seq<Seq<char>>)
    requires
        forall|i: int| 0 <= i < ps.len() ==> !(ps[i].len() > 0 && #[trigger] ps[i][0] == '/'),
    ensures
        base.is_prefix_of(push_components(base, ps)),
    decreases ps.len(),
{
    if ps.len() > 0 {
        let next = if ps[0] == Seq::<char>::empty() || ps[0] == seq!['.'] {
            base
        } else {
            join_s(base, ps[0])
        };
        assert(base.is_prefix_of(next)) by {
            if next != base {
                assert(!(ps[0].len() > 0 && ps[0][0] == '/'));
                if base.len() == 0 || base.last() == '/' {
                    assert(next =~= base + ps[0]);
                } else {
                    assert(next =~= base + seq!['/'] + ps[0]);
                }
                assert(next.subrange(0, base.len() as int) =~= base);
            }
        }
        assert forall|i: int| 0 <= i < ps.drop_first().len() implies !(ps.drop_first()[i].len() > 0
            && #[trigger] ps.drop_first()[i][0] == '/') by {
            assert(ps.drop_first()[i] == ps[i + 1]);
        }
        lemma_push_components_under(next, ps.drop_first());
        assert(next.is_prefix_of(push_components(next, ps.drop_first())));
    }
}

pub proof fn lemma_split_pieces_free_of(s: Seq<char>, sep: char)
    ensures
        forall|i: int| 0 <= i < split_s(s, sep).len() ==> !(#[trigger] split_s(s, sep)[i]).contains(sep),
    decreases s.len(),
{
    if s.len() > 0 {
        lemma_split_pieces_free_of(s.drop_last(), sep);
        crate::text::lemma_split_nonempty(s.drop_last(), sep);
        let rest = split_s(s.drop_last(), sep);
        if s.last() != sep {
            let last = rest.last().push(s.last());
            assert(!last.contains(sep)) by {
                if last.contains(sep) {
                    let k = choose|k: int| 0 <= k < last.len() && last[k] == sep;
                    if k < last.len() - 1 {
                        assert(rest.last()[k] == sep);
                        assert(rest[rest.len() - 1].contains(sep));
                    }
                }
            }
        }
    }
}

/// Whatever `resolve` accepts stays under the root: the root is a prefix of
/// the resolved path.
pub proof fn lemma_resolve_stays_under_root(root: Seq<char>, user_path: Seq<char>)
    ensures
        resolve_s(root, user_path) matches Ok(p) ==> root.is_prefix_of(p),
{
    let u = trim_s(user_path);
    let ps = split_s(u, '/');
    lemma_split_pieces_free_of(u, '/');
    assert forall|i: int| 0 <= i < ps.len() implies !(ps[i].len() > 0 && #[trigger] ps[i][0]
        == '/') by {
        if ps[i].len() > 0 && ps[i][0] == '/' {
            assert(ps[i].contains('/'));
        }
    }
    lemma_push_components_under(root, ps);
}

/// The components `cs` written as a relative path, `c1/c2/.../cn`.
pub open spec fn slash_join(cs: Seq<Seq<char>>) -> Seq<char>
    decreases cs.len(),
{
    if cs.len() == 0 {
        Seq::empty()
    } else if cs.len() == 1 {
        cs[0]
    } else {
        slash_join(cs.drop_last()) + seq!['/'] + cs.last()
    }
}

/// An ordinary path component: not empty, neither `.` nor `..`, and free
/// of `/` and NUL.
pub open spec fn plain_component(c: Seq<char>) -> bool {
    c.len() > 0 && c != seq!['.'] && c != seq!['.', '.'] && !c.contains('/') && !c.contains('\0')
}

proof fn lemma_slash_join_facts(cs: Seq<Seq<char>>)
    requires
        cs.len() > 0,
        forall|i: int| 0 <= i < cs.len() ==> plain_component(#[trigger] cs[i]),
    ensures
        split_s(slash_join(cs), '/') == cs,
        slash_join(cs).len() > 0,
        slash_join(cs)[0] == cs[0][0],
        slash_join(cs).last() == cs.last().last(),
        !slash_join(cs).contains('\0'),
    decreases cs.len(),
{
    let x = cs.last();
    assert(plain_component(x));
    assert forall|j: int| 0 <= j < x.len() implies x[j] != '/' by {
        if x[j] == '/' {
            assert(x.contains('/'));
        }
    }
    if cs.len() == 1 {
        lemma_split_append_plain(Seq::<char>::empty(), x, '/');
        assert(Seq::<char>::empty() + x =~= x);
        assert(split_s(Seq::<char>::empty(), '/') =~= seq![Seq::<char>::empty()]);
        assert(split_s(x, '/') =~= seq![x]);
        assert(cs =~= seq![x]);
    } else {
        let d = cs.drop_last();
        assert forall|i: int| 0 <= i < d.len() implies plain_component(#[trigger] d[i]) by {
            assert(d[i] == cs[i]);
        }
        lemma_slash_join_facts(d);
        let a = slash_join(d);
        let a2 = a + seq!['/'];
        assert(a2.drop_last() =~= a);
        assert(split_s(a2, '/') == split_s(a, '/').push(Seq::<char>::empty()));
        lemma_split_append_plain(a2, x, '/');
        assert(a2 + x =~= slash_join(cs));
        assert(split_s(slash_join(cs), '/') =~= d.push(x));
        assert(d.push(x) =~= cs);
        assert(slash_join(cs)[0] == a[0]);
        assert(d[0] == cs[0]);
        assert(!slash_join(cs).contains('\0')) by {
            if slash_join(cs).contains('\0') {
                let k = choose|k: int| 0 <= k < slash_join(cs).len() && slash_join(cs)[k] == '\0';
                if k < a.len() {
                    assert(a[k] == '\0');
                    assert(a.contains('\0'));
                } else if k > a.len() {
                    assert(x[k - a.len() - 1] == '\0');
                    assert(x.contains('\0'));
                }
            }
        }
    }
}

proof fn lemma_push_components_push(base: Seq<char>, ps: Seq<Seq<char>>, x: Seq<char>)
    ensures
        push_components(base, ps.push(x)) == (if x == Seq::<char>::empty() || x == seq!['.'] {
            push_components(base, ps)
        } else {
            join_s(push_components(base, ps), x)
        }),
    decreases ps.len(),
{
    if ps.len() == 0 {
        let nb = if x == Seq::<char>::empty() || x == seq!['.'] {
            base
        } else {
            join_s(base, x)
        };
        assert(ps.push(x).drop_first() =~= Seq::<Seq<char>>::empty());
        assert(ps.push(x)[0] == x);
        assert(push_components(nb, Seq::<Seq<char>>::empty()) == nb);
        assert(push_components(base, ps) == base);
    } else {
        let next = if ps[0] == Seq::<char>::empty() || ps[0] == seq!['.'] {
            base
        } else {
            join_s(base, ps[0])
        };
        assert(ps.push(x).drop_first() =~= ps.drop_first().push(x));
        assert(ps.push(x)[0] == ps[0]);
        lemma_push_components_push(next, ps.drop_first(), x);
    }
}

/// `base` followed by a relative path, with one `/` between them unless
/// `base` is empty or already ends in one.
pub open spec fn under(base: Seq<char>, rel: Seq<char>) -> Seq<char> {
    if base.len() == 0 || base.last() == '/' {
        base + rel
    } else {
        base + seq!['/'] + rel
    }
}

proof fn lemma_push_plain(base: Seq<char>, cs: Seq<Seq<char>>)
    requires
        cs.len() > 0,
        forall|i: int| 0 <= i < cs.len() ==> plain_component(#[trigger] cs[i]),
    ensures
        push_components(base, cs) == under(base, slash_join(cs)),
    decreases cs.len(),
{
    let x = cs.last();
    assert(plain_component(x));
    assert(x[0] != '/') by {
        if x[0] == '/' {
            assert(x.contains('/'));
        }
    }
    assert(cs.drop_last().push(x) =~= cs);
    lemma_push_components_push(base, cs.drop_last(), x);
    if cs.len() == 1 {
        assert(cs.drop_last() =~= Seq::<Seq<char>>::empty());
    } else {
        let d = cs.drop_last();
        assert forall|i: int| 0 <= i < d.len() implies plain_component(#[trigger] d[i]) by {
            assert(d[i] == cs[i]);
        }
        lemma_push_plain(base, d);
        lemma_slash_join_facts(d);
        let j = under(base, slash_join(d));
        assert(plain_component(d.last()));
        assert(d.last().last() != '/') by {
            if d.last().last() == '/' {
                assert(d.last().contains('/'));
            }
        }
        assert(j.len() > 0 && j.last() == slash_join(d).last());
        assert(join_s(j, x) =~= under(base, slash_join(cs)));
    }
}

/// `resolve` loses no component: a relative path made of ordinary
/// components `c1/.../cn` (no empty, `.` or `..` one, no NUL, no blank at
/// either end) resolves to the root joined with all of them in order, i.e.
/// the root, one `/` where needed, and the path itself.
pub proof fn lemma_resolve_keeps_every_component(root: Seq<char>, cs: Seq<Seq<char>>)
    requires
        cs.len() > 0,
        forall|i: int| 0 <= i < cs.len() ==> plain_component(#[trigger] cs[i]),
        !is_ws(cs[0][0]),
        !is_ws(cs.last().last()),
    ensures
        resolve_s(root, slash_join(cs)) == Ok::<Seq<char>, SandboxError>(under(root, slash_join(cs))),
{
    lemma_slash_join_facts(cs);
    lemma_push_plain(root, cs);
    let p = slash_join(cs);
    assert(trim_start_s(p) == p);
    assert(trim_end_s(p) == p);
    assert(trim_s(p) == p);
    assert(plain_component(cs[0]));
    assert(p[0] != '/') by {
        if cs[0][0] == '/' {
            assert(cs[0].contains('/'));
        }
    }
    assert(!has_parent_component(cs)) by {
        if has_parent_component(cs) {
            let i = choose|i: int| 0 <= i < cs.len() && cs[i] == seq!['.', '.'];
            assert(plain_component(cs[i]));
        }
    }
}

proof fn lemma_slash_join_general(cs: Seq<Seq<char>>)
    requires
        cs.len() > 0,
        forall|i: int| 0 <= i < cs.len() ==> !(#[trigger] cs[i]).contains('/'),
    ensures
        split_s(slash_join(cs), '/') == cs,
        cs[0].len() > 0 ==> slash_join(cs).len() > 0 && slash_join(cs)[0] == cs[0][0],
        cs.last().len() > 0 ==> slash_join(cs).len() > 0 && slash_join(cs).last() == cs.last().last(),
        (forall|i: int| 0 <= i < cs.len() ==> !(#[trigger] cs[i]).contains('\0')) ==> !slash_join(
            cs,
        ).contains('\0'),
    decreases cs.len(),
{
    let x = cs.last();
    assert(!x.contains('/'));
    assert forall|j: int| 0 <= j < x.len() implies x[j] != '/' by {
        if x[j] == '/' {
            assert(x.contains('/'));
        }
    }
    if cs.len() == 1 {
        lemma_split_append_plain(Seq::<char>::empty(), x, '/');
        assert(Seq::<char>::empty() + x =~= x);
        assert(split_s(Seq::<char>::empty(), '/') =~= seq![Seq::<char>::empty()]);
        assert(split_s(x, '/') =~= seq![x]);
        assert(cs =~= seq![x]);
    } else {
        let d = cs.drop_last();
        assert forall|i: int| 0 <= i < d.len() implies !(#[trigger] d[i]).contains('/') by {
            assert(d[i] == cs[i]);
        }
        lemma_slash_join_general(d);
        let a = slash_join(d);
        let a2 = a + seq!['/'];
        assert(a2.drop_last() =~= a);
        assert(split_s(a2, '/') == split_s(a, '/').push(Seq::<char>::empty()));
        lemma_split_append_plain(a2, x, '/');
        assert(a2 + x =~= slash_join(cs));
        assert(split_s(slash_join(cs), '/') =~= d.push(x));
        assert(d.push(x) =~= cs);
        assert(d[0] == cs[0]);
        if cs[0].len() > 0 {
            assert(slash_join(cs)[0] == a[0]);
        }
        if forall|i: int| 0 <= i < cs.len() ==> !(#[trigger] cs[i]).contains('\0') {
            assert forall|i: int| 0 <= i < d.len() implies !(#[trigger] d[i]).contains('\0') by {
                assert(d[i] == cs[i]);
            }
            assert(!x.contains('\0'));
            assert(!slash_join(cs).contains('\0')) by {
                if slash_join(cs).contains('\0') {
                    let k = choose|k: int| 0 <= k < slash_join(cs).len() && slash_join(cs)[k] == '\0';
                    if k < a.len() {
                        assert(a[k] == '\0');
                        assert(a.contains('\0'));
                    } else if k > a.len() {
                        assert(x[k - a.len() - 1] == '\0');
                        assert(x.contains('\0'));
                    }
                }
            }
        }
    }
}

/// A path whose ends are not blank is its own trim.
proof fn lemma_trim_noop(p: Seq<char>)
    requires
        p.len() > 0,
        !is_ws(p[0]),
        !is_ws(p.last()),
    ensures
        trim_s(p) == p,
{
    assert(trim_start_s(p) == p);
    assert(trim_end_s(p) == p);
}

/// `resolve` never lets `..` through: a relative path with a `..`
/// component anywhere is refused, as an escape unless it holds a NUL.
pub proof fn lemma_resolve_refuses_parent(root: Seq<char>, cs: Seq<Seq<char>>, i: int)
    requires
        0 <= i < cs.len(),
        cs[i] == seq!['.', '.'],
        forall|k: int| 0 <= k < cs.len() ==> !(#[trigger] cs[k]).contains('/'),
        cs[0].len() > 0 && !is_ws(cs[0][0]),
        cs.last().len() > 0 && !is_ws(cs.last().last()),
    ensures
        resolve_s(root, slash_join(cs)) is Err,
        (forall|k: int| 0 <= k < cs.len() ==> !(#[trigger] cs[k]).contains('\0')) ==> resolve_s(
            root,
            slash_join(cs),
        ) == Err::<Seq<char>, SandboxError>(SandboxError::Escape),
{
    lemma_slash_join_general(cs);
    lemma_trim_noop(slash_join(cs));
    assert(!cs[0].contains('/'));
    assert(cs[0][0] != '/') by {
        if cs[0][0] == '/' {
            assert(cs[0].contains('/'));
        }
    }
    assert(has_parent_component(cs));
}

/// The ordinary components among `cs`: those `resolve` keeps.
pub open spec fn kept_components(cs: Seq<Seq<char>>) -> Seq<Seq<char>> {
    cs.filter(|c: Seq<char>| plain_component(c))
}

proof fn lemma_push_skips_dots(base: Seq<char>, cs: Seq<Seq<char>>)
    requires
        forall|i: int| 0 <= i < cs.len() ==> plain_component(#[trigger] cs[i]) || cs[i]
            == Seq::<char>::empty() || cs[i] == seq!['.'],
    ensures
        push_components(base, cs) == (if kept_components(cs).len() == 0 {
            base
        } else {
            under(base, slash_join(kept_components(cs)))
        }),
        forall|i: int|
            0 <= i < kept_components(cs).len() ==> plain_component(#[trigger] kept_components(cs)[i]),
    decreases cs.len(),
{
    broadcast use Seq::lemma_filter_push;

    if cs.len() == 0 {
        reveal(Seq::filter);
        assert(kept_components(cs) =~= Seq::<Seq<char>>::empty());
    } else {
        let d = cs.drop_last();
        let x = cs.last();
        assert forall|i: int| 0 <= i < d.len() implies plain_component(#[trigger] d[i]) || d[i]
            == Seq::<char>::empty() || d[i] == seq!['.'] by {
            assert(d[i] == cs[i]);
        }
        lemma_push_skips_dots(base, d);
        assert(d.push(x) =~= cs);
        lemma_push_components_push(base, d, x);
        let kd = kept_components(d);
        assert(plain_component(x) || x == Seq::<char>::empty() || x == seq!['.']);
        if plain_component(x) {
            assert(kept_components(cs) == kd.push(x));
            assert(x != Seq::<char>::empty());
            assert(x[0] != '/') by {
                if x[0] == '/' {
                    assert(x.contains('/'));
                }
            }
            if kd.len() == 0 {
                assert(kd.push(x) =~= seq![x]);
            } else {
                let kc = kd.push(x);
                assert(kc.drop_last() =~= kd);
                assert(kc.last() == x);
                assert forall|i: int| 0 <= i < kd.len() implies !(#[trigger] kd[i]).contains('/') by {
                    assert(plain_component(kd[i]));
                }
                lemma_slash_join_general(kd);
                assert(plain_component(kd.last()));
                assert(kd.last().last() != '/') by {
                    if kd.last().last() == '/' {
                        assert(kd.last().contains('/'));
                    }
                }
                let j = under(base, slash_join(kd));
                assert(j.len() > 0 && j.last() == slash_join(kd).last());
                assert(join_s(j, x) =~= under(base, slash_join(kc)));
            }
            assert forall|i: int| 0 <= i < kd.push(x).len() implies plain_component(
                #[trigger] kd.push(x)[i],
            ) by {
                if i < kd.len() {
                    assert(kd.push(x)[i] == kd[i]);
                }
            }
        } else {
            assert(!plain_component(x));
            assert(kept_components(cs) == kd);
        }
    }
}

/// `resolve` skips only empty and `.` components: for a relative path made
/// of ordinary, empty and `.` components (no `..`, NUL or blank end), the
/// result is the root joined with the ordinary ones, every one, in order
/// (the root itself when there is none).
pub proof fn lemma_resolve_skips_only_dots(root: Seq<char>, cs: Seq<Seq<char>>)
    requires
        cs.len() > 0,
        forall|i: int| 0 <= i < cs.len() ==> plain_component(#[trigger] cs[i]) || cs[i]
            == Seq::<char>::empty() || cs[i] == seq!['.'],
        cs[0].len() > 0 && !is_ws(cs[0][0]),
        cs.last().len() > 0 && !is_ws(cs.last().last()),
    ensures
        resolve_s(root, slash_join(cs)) == Ok::<Seq<char>, SandboxError>(
            if kept_components(cs).len() == 0 {
                root
            } else {
                under(root, slash_join(kept_components(cs)))
            },
        ),
{
    assert forall|k: int| 0 <= k < cs.len() implies !(#[trigger] cs[k]).contains('/') && !cs[k].contains('\0') by {
        if !plain_component(cs[k]) {
            if cs[k] == seq!['.'] {
                if cs[k].contains('/') || cs[k].contains('\0') {
                    let j = choose|j: int| 0 <= j < cs[k].len() && (cs[k][j] == '/' || cs[k][j] == '\0');
                    assert(cs[k][0] == '.');
                }
            }
        }
    }
    lemma_slash_join_general(cs);
    lemma_trim_noop(slash_join(cs));
    assert(cs[0][0] != '/') by {
        if cs[0][0] == '/' {
            assert(cs[0].contains('/'));
        }
    }
    assert(!has_parent_component(cs)) by {
        if has_parent_component(cs) {
            let i = choose|i: int| 0 <= i < cs.len() && cs[i] == seq!['.', '.'];
            assert(plain_component(cs[i]) || cs[i] == Seq::<char>::empty() || cs[i] == seq!['.']);
            assert(cs[i].len() == 2);
        }
    }
    lemma_push_skips_dots(root, cs);
}

/// Whether a canonical path lies under a canonical root, component by
/// component as `Path::starts_with` compares: the root itself, or the root
/// followed by a separator (a root that already ends in `/`, such as `/`,
/// needs none).  `/srv/ab` does not lie under `/srv/a`.
pub open spec fn within_s(path: Seq<char>, root: Seq<char>) -> bool {
    ||| path == root
    ||| root.len() > 0 && root.last() == '/' && starts_with_s(path, root)
    ||| starts_with_s(path, root.push('/'))
}

/// The symlink check on canonical paths: does `path` lie under `root`?
pub fn within_root(path: &str, root: &str) -> (r: bool)
    ensures
        r == within_s(path@, root@),
{
    let p = chars_of(path);
    let rt = chars_of(root);
    if p.len() == rt.len() && starts_with(p.as_slice(), rt.as_slice()) {
        assert(p@.subrange(0, rt@.len() as int) =~= p@);
        return true;
    }
    if rt.len() > 0 && rt[rt.len() - 1] == '/' {
        if starts_with(p.as_slice(), rt.as_slice()) {
            return true;
        }
    }
    let mut with_sep = chars_of(root);
    with_sep.push('/');
    let r = starts_with(p.as_slice(), with_sep.as_slice());
    proof {
        if p@ == rt@ {
            assert(p@.subrange(0, rt@.len() as int) =~= p@);
        }
    }
    r
}

/// What `validate_jar_filename` accepts (the trimmed name) or why it refuses.
pub open spec fn jar_filename_s(name: Seq<char>) -> Result<Seq<char>, SandboxError> {
    let t = trim_s(name);
    if t.len() == 0 {
        Err(SandboxError::Empty)
    } else if t.contains('/') || t.contains('\\') || t.contains('\0') {
        Err(SandboxError::BadName)
    } else if t[0] == '.' {
        Err(SandboxError::BadName)
    } else if utf8_len(t) > 200 {
        Err(SandboxError::BadName)
    } else if !ends_with_s(lower_s(t), ".jar"@) {
        Err(SandboxError::BadName)
    } else {
        Ok(t)
    }
}

/// Strict single-level plugin file name: no directory separators, not
/// hidden, at most 200 bytes, ending in `.jar` (any case).  Returns the
/// trimmed name.
pub fn validate_jar_filename(name: &str) -> (r: Result<String, SandboxError>)
    ensures
        match jar_filename_s(name@) {
            Ok(t) => r is Ok && r->Ok_0@ == t,
            Err(e) => r == Err::<String, SandboxError>(e),
        },
{
    let raw = chars_of(name);
    let t = trim_chars(raw.as_slice());
    if t.len() == 0 {
        return Err(SandboxError::Empty);
    }
    if contains_char(t.as_slice(), '/') || contains_char(t.as_slice(), '\\') || contains_char(
        t.as_slice(),
        '\0',
    ) {
        return Err(SandboxError::BadName);
    }
    if t[0] == '.' {
        return Err(SandboxError::BadName);
    }
    if utf8_len_of(t.as_slice()) > 200 {
        return Err(SandboxError::BadName);
    }
    let low = lower_chars(t.as_slice());
    let jar = chars_of(".jar");
    if !ends_with(low.as_slice(), jar.as_slice()) {
        return Err(SandboxError::BadName);
    }
    Ok(string_of(t.as_slice()))
}

} // verus!
