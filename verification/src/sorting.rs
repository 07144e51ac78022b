//! Stable sorting of listings by a key: a group number, a text and a
//! number, compared in that order.  Texts compare character by character,
//! which for UTF-8 strings is the byte order `String`'s own ordering uses.
use vstd::prelude::*;

verus! {

/// A listing's sort key.
#[derive(Debug)]
pub struct SortKey {
    pub group: u64,
    pub text: Vec<char>,
    pub tail: u64,
}

/// `a` comes strictly before `b` as text.
pub open spec fn text_lt(a: Seq<char>, b: Seq<char>) -> bool
    decreases a.len(),
{
    if a.len() == 0 {
        b.len() > 0
    } else if b.len() == 0 {
        false
    } else if a[0] != b[0] {
        a[0] < b[0]
    } else {
        text_lt(a.drop_first(), b.drop_first())
    }
}

/// A key as plain values.
pub open spec fn kv(k: SortKey) -> (u64, Seq<char>, u64) {
    (k.group, k.text@, k.tail)
}

pub open spec fn kv_lt(a: (u64, Seq<char>, u64), b: (u64, Seq<char>, u64)) -> bool {
    a.0 < b.0 || (a.0 == b.0 && (text_lt(a.1, b.1) || (a.1 == b.1 && a.2 < b.2)))
}

pub open spec fn kv_le(a: (u64, Seq<char>, u64), b: (u64, Seq<char>, u64)) -> bool {
    kv_lt(a, b) || a == b
}

pub open spec fn key_lt(a: SortKey, b: SortKey) -> bool {
    kv_lt(kv(a), kv(b))
}

pub open spec fn key_eq(a: SortKey, b: SortKey) -> bool {
    kv(a) == kv(b)
}

pub open spec fn key_le(a: SortKey, b: SortKey) -> bool {
    kv_le(kv(a), kv(b))
}

proof fn lemma_text_lt_irrefl_total(a: Seq<char>, b: Seq<char>)
    ensures
        !(text_lt(a, b) && text_lt(b, a)),
        a != b ==> text_lt(a, b) || text_lt(b, a),
        !text_lt(a, a),
    decreases a.len(),
{
    if a.len() > 0 {
        lemma_text_lt_irrefl_total(a.drop_first(), a.drop_first());
    }
    if a.len() == 0 && b.len() == 0 {
        assert(a =~= b);
    }
    if a.len() > 0 && b.len() > 0 && a[0] == b[0] {
        lemma_text_lt_irrefl_total(a.drop_first(), b.drop_first());
        if a.drop_first() == b.drop_first() {
            assert forall|i: int| 0 <= i < a.len() implies a[i] == b[i] by {
                if i > 0 {
                    assert(a[i] == a.drop_first()[i - 1]);
                    assert(b[i] == b.drop_first()[i - 1]);
                }
            }
            assert(a =~= b);
        }
    }
}

proof fn lemma_text_lt_trans(a: Seq<char>, b: Seq<char>, c: Seq<char>)
    requires
        text_lt(a, b),
        text_lt(b, c),
    ensures
        text_lt(a, c),
    decreases a.len(),
{
    if a.len() > 0 && b.len() > 0 && c.len() > 0 && a[0] == b[0] && b[0] == c[0] {
        lemma_text_lt_trans(a.drop_first(), b.drop_first(), c.drop_first());
    }
}

proof fn lemma_key_order(a: SortKey, b: SortKey, c: SortKey)
    ensures
        key_le(a, b) && key_le(b, c) ==> key_le(a, c),
        key_le(a, b) || key_lt(b, a),
        !(key_le(a, b) && key_lt(b, a)),
{
    lemma_text_lt_irrefl_total(a.text@, b.text@);
    lemma_text_lt_irrefl_total(b.text@, c.text@);
    lemma_text_lt_irrefl_total(a.text@, c.text@);
    if text_lt(a.text@, b.text@) && text_lt(b.text@, c.text@) {
        lemma_text_lt_trans(a.text@, b.text@, c.text@);
    }
}

fn copy_key(k: &SortKey) -> (r: SortKey)
    ensures
        key_eq(r, *k),
{
    let t = crate::text::slice_to_vec_range(k.text.as_slice(), 0, k.text.len());
    assert(t@ =~= k.text@);
    SortKey { group: k.group, text: t, tail: k.tail }
}

fn text_less(a: &[char], b: &[char]) -> (r: bool)
    ensures
        r == text_lt(a@, b@),
{
    let mut i: usize = 0;
    assert(a@.skip(0) =~= a@);
    assert(b@.skip(0) =~= b@);
    while i < a.len() && i < b.len() && a[i] == b[i]
        invariant
            i <= a@.len(),
            i <= b@.len(),
            text_lt(a@, b@) == text_lt(a@.skip(i as int), b@.skip(i as int)),
        decreases a@.len() - i,
    {
        proof {
            assert(a@.skip(i as int).drop_first() =~= a@.skip(i + 1));
            assert(b@.skip(i as int).drop_first() =~= b@.skip(i + 1));
        }
        i += 1;
    }
    proof {
        assert(a@.skip(0) =~= a@);
        assert(b@.skip(0) =~= b@);
    }
    if i == a.len() {
        i < b.len()
    } else if i == b.len() {
        false
    } else {
        a[i] < b[i]
    }
}

fn key_less(a: &SortKey, b: &SortKey) -> (r: bool)
    ensures
        r == key_lt(*a, *b),
{
    if a.group != b.group {
        return a.group < b.group;
    }
    if text_less(a.text.as_slice(), b.text.as_slice()) {
        return true;
    }
    proof {
        lemma_text_lt_irrefl_total(a.text@, b.text@);
    }
    if text_less(b.text.as_slice(), a.text.as_slice()) {
        return false;
    }
    a.tail < b.tail
}

/// `p` lists each of `0..n` once.
pub open spec fn is_perm(p: Seq<int>, n: nat) -> bool {
    &&& p.len() == n
    &&& forall|k: int| 0 <= k < n ==> 0 <= #[trigger] p[k] < n
    &&& forall|k: int, l: int| 0 <= k < l < n ==> #[trigger] p[k] != #[trigger] p[l]
}

/// `r` is `items` reordered by `p`, ascending by `key`, and items with
/// equal keys keep their order.
pub open spec fn sorted_by<T>(items: Seq<T>, key: spec_fn(T) -> (u64, Seq<char>, u64), r: Seq<T>, p: Seq<int>) -> bool {
    &&& is_perm(p, items.len())
    &&& r.len() == items.len()
    &&& forall|k: int| 0 <= k < r.len() ==> r[k] == items[#[trigger] p[k]]
    &&& forall|k: int, l: int|
        0 <= k < l < r.len() ==> kv_le(key(items[#[trigger] p[k]]), key(items[#[trigger] p[l]]))
    &&& forall|k: int, l: int|
        0 <= k < l < r.len() && key(items[p[k]]) == key(items[p[l]]) ==> #[trigger] p[k]
            < #[trigger] p[l]
}

/// Sorts `items` by `keys` (one key per item), stably.
pub(crate) fn sort_by_keys<T>(items: Vec<T>, keys: Vec<SortKey>, Ghost(key): Ghost<spec_fn(T) -> (u64, Seq<char>, u64)>) -> (r: Vec<T>)
    requires
        items@.len() == keys@.len(),
        forall|j: int| 0 <= j < keys@.len() ==> kv(#[trigger] keys@[j]) == key(items@[j]),
    ensures
        exists|p: Seq<int>| sorted_by(items@, key, r@, p),
{
    let ghost src = items@;
    let ghost ks = keys@;
    let n = items.len();
    let mut rest = items;
    let mut out: Vec<T> = Vec::new();
    let mut out_keys: Vec<SortKey> = Vec::new();
    let ghost mut p: Seq<int> = Seq::empty();
    let mut i: usize = 0;
    while i < n
        invariant
            i <= n,
            n == src.len(),
            ks.len() == n,
            keys@ == ks,
            forall|j: int| 0 <= j < ks.len() ==> kv(#[trigger] ks[j]) == key(src[j]),
            rest@ == src.skip(i as int),
            out@.len() == i,
            out_keys@.len() == i,
            p.len() == i,
            forall|k: int| 0 <= k < i ==> 0 <= #[trigger] p[k] < i,
            forall|k: int, l: int| 0 <= k < l < i ==> #[trigger] p[k] != #[trigger] p[l],
            forall|k: int| 0 <= k < i ==> out@[k] == src[#[trigger] p[k]],
            forall|k: int| 0 <= k < i ==> key_eq(out_keys@[k], ks[#[trigger] p[k]]),
            forall|k: int, l: int|
                0 <= k < l < i ==> key_le(ks[#[trigger] p[k]], ks[#[trigger] p[l]]),
            forall|k: int, l: int|
                0 <= k < l < i && key_eq(ks[p[k]], ks[p[l]]) ==> #[trigger] p[k] < #[trigger] p[l],
        decreases n - i,
    {
        let x = rest.remove(0);
        assert(x == src[i as int]);
        assert(rest@ =~= src.skip(i + 1));
        let kx = copy_key(&keys[i]);
        let mut pos: usize = 0;
        while pos < out_keys.len() && !key_less(&kx, &out_keys[pos])
            invariant
                pos <= out_keys@.len(),
                out_keys@.len() == i,
                forall|k: int| 0 <= k < pos ==> !key_lt(kx, #[trigger] out_keys@[k]),
            decreases out_keys@.len() - pos,
        {
            pos += 1;
        }
        let ghost old_p = p;
        let ghost old_out = out@;
        let ghost old_keys = out_keys@;
        out.insert(pos, x);
        out_keys.insert(pos, kx);
        proof {
            p = p.insert(pos as int, i as int);
            assert forall|k: int| 0 <= k < pos implies key_le(ks[#[trigger] old_p[k]], ks[i as int]) by {
                lemma_key_order(ks[old_p[k]], ks[i as int], ks[i as int]);
                assert(key_eq(old_keys[k], ks[old_p[k]]));
            }
            assert forall|k: int| pos <= k < i implies key_lt(ks[i as int], ks[#[trigger] old_p[k]]) by {
                if pos < i {
                    assert(key_lt(kx, old_keys[pos as int]));
                    assert(key_eq(old_keys[pos as int], ks[old_p[pos as int]]));
                    lemma_key_order(ks[i as int], ks[old_p[pos as int]], ks[old_p[k]]);
                    if k > pos {
                        assert(key_le(ks[old_p[pos as int]], ks[old_p[k]]));
                        lemma_key_order(ks[i as int], ks[old_p[pos as int]], ks[old_p[k]]);
                        lemma_key_order(ks[old_p[pos as int]], ks[old_p[k]], ks[i as int]);
                    }
                }
            }
            assert forall|k: int, l: int|
                0 <= k < l < i + 1 && key_eq(ks[p[k]], ks[p[l]]) implies #[trigger] p[k]
                < #[trigger] p[l] by {
                if l == pos {
                    assert(p[k] == old_p[k]);
                } else if k == pos {
                    assert(p[l] == old_p[l - 1]);
                    assert(key_lt(ks[i as int], ks[old_p[l - 1]]));
                    lemma_key_order(ks[old_p[l - 1]], ks[i as int], ks[i as int]);
                } else {
                    let k0 = if k < pos { k } else { k - 1 };
                    let l0 = if l < pos { l } else { l - 1 };
                    assert(p[k] == old_p[k0]);
                    assert(p[l] == old_p[l0]);
                }
            }
        }
        i += 1;
    }
    proof {
        assert forall|k: int, l: int| 0 <= k < l < out@.len() implies kv_le(
            key(src[#[trigger] p[k]]),
            key(src[#[trigger] p[l]]),
        ) by {
            assert(kv(ks[p[k]]) == key(src[p[k]]));
            assert(kv(ks[p[l]]) == key(src[p[l]]));
        }
        assert forall|k: int, l: int|
            0 <= k < l < out@.len() && key(src[p[k]]) == key(src[p[l]]) implies #[trigger] p[k]
            < #[trigger] p[l] by {
            assert(kv(ks[p[k]]) == key(src[p[k]]));
            assert(kv(ks[p[l]]) == key(src[p[l]]));
        }
        assert(sorted_by(src, key, out@, p));
    }
    out
}

/// `str::to_lowercase`: Unicode lower case.
pub uninterp spec fn unicode_lowercase(s: Seq<char>) -> Seq<char>;

/// `str::to_lowercase`, named by `unicode_lowercase`.
#[verifier::external_body]
pub(crate) fn to_lowercase(s: &str) -> (r: String)
    ensures
        r@ == unicode_lowercase(s@),
{
    s.to_lowercase()
}

/// A key whose text is the characters of a string.
pub(crate) fn text_key(group: u64, text: &str, tail: u64) -> (r: SortKey)
    ensures
        kv(r) == (group, text@, tail),
{
    SortKey { group, text: crate::text::chars_of(text), tail }
}

} // verus!
