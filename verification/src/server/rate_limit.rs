//! In-memory sliding-window rate limiter.
//!
//! Each key keeps the times of its admitted requests; a check first drops
//! the times older than the window, then admits the request if fewer than
//! `limit` remain.  Times are nanoseconds since the limiter was created.
use crate::text::{owned, str_eq};
use std::time::Instant;
use vstd::prelude::*;

verus! {

#[verifier::external_type_specification]
#[verifier::external_body]
pub struct ExInstant(Instant);

/// `Instant::now()`; nothing is claimed of the value.
#[verifier::external_body]
fn instant_now() -> Instant {
    Instant::now()
}

/// Nanoseconds from `earlier` to `later` (`Instant::duration_since`, which
/// saturates at zero, read with `Duration::as_nanos`).  Depends on the clock:
/// nothing is claimed of the value.
#[verifier::external_body]
fn nanos_between(earlier: &Instant, later: &Instant) -> u128 {
    later.duration_since(*earlier).as_nanos()
}

fn age_of(now: u128, t: u128) -> (r: u128)
    ensures
        r == age(now, t),
{
    if now >= t {
        now - t
    } else {
        0
    }
}

/// Admitted request times of one key.
pub struct Bucket {
    pub key: String,
    pub stamps: Vec<u128>,
}

pub struct RateLimiter {
    origin: Instant,
    buckets: Vec<Bucket>,
}

/// Nanoseconds between two times, zero when `t` is after `now`.
pub open spec fn age(now: u128, t: u128) -> int {
    if now >= t {
        now - t
    } else {
        0
    }
}

/// The stamps left after dropping, from the front, those older than the window.
pub open spec fn prune_s(s: Seq<u128>, now: u128, window: u128) -> Seq<u128>
    decreases s.len(),
{
    if s.len() > 0 && age(now, s[0]) > window {
        prune_s(s.drop_first(), now, window)
    } else {
        s
    }
}

/// Whether a check at `now` admits a request with `stamps` on record.
pub open spec fn admits(stamps: Seq<u128>, limit: usize, window: u128, now: u128) -> bool {
    prune_s(stamps, now, window).len() < limit
}

/// The record of a key after a check at `now`.
pub open spec fn after_check(stamps: Seq<u128>, limit: usize, window: u128, now: u128) -> Seq<u128> {
    let p = prune_s(stamps, now, window);
    if p.len() < limit {
        p.push(now)
    } else {
        p
    }
}

/// A window of `secs` seconds, in nanoseconds.
pub open spec fn secs_to_nanos(secs: u64) -> u128 {
    (secs * 1_000_000_000) as u128
}

/// Recently active keys are kept by `gc`: those whose last request is less
/// than half an hour old.
pub open spec fn gc_keeps(stamps: Seq<u128>, now: u128) -> bool {
    stamps.len() > 0 && age(now, stamps.last()) < 1_800_000_000_000
}

/// The stamps on record for `k`, empty when the key was never checked.
pub open spec fn record(m: Map<Seq<char>, Seq<u128>>, k: Seq<char>) -> Seq<u128> {
    if m.dom().contains(k) {
        m[k]
    } else {
        Seq::empty()
    }
}

/// The records that survive `gc` at `now`.
pub open spec fn gc_result(m: Map<Seq<char>, Seq<u128>>, now: u128) -> Map<Seq<char>, Seq<u128>> {
    m.restrict(m.dom().filter(|k: Seq<char>| gc_keeps(m[k], now)))
}

impl RateLimiter {
    pub closed spec fn has(&self, k: Seq<char>) -> bool {
        exists|i: int| 0 <= i < self.buckets@.len() && (#[trigger] self.buckets@[i]).key@ == k
    }

    pub closed spec fn stamps_of(&self, k: Seq<char>) -> Seq<u128> {
        if self.has(k) {
            let i = choose|i: int|
                0 <= i < self.buckets@.len() && (#[trigger] self.buckets@[i]).key@ == k;
            self.buckets@[i].stamps@
        } else {
            Seq::empty()
        }
    }

    /// Keys are unique.
    #[verifier::type_invariant]
    spec fn wf(&self) -> bool {
        forall|i: int, j: int|
            0 <= i < self.buckets@.len() && 0 <= j < self.buckets@.len() && i != j
                ==> (#[trigger] self.buckets@[i]).key@ != (#[trigger] self.buckets@[j]).key@
    }

    /// The record of every key that has been checked.
    pub closed spec fn view(&self) -> Map<Seq<char>, Seq<u128>> {
        Map::new(|k: Seq<char>| self.has(k), |k: Seq<char>| self.stamps_of(k))
    }

    proof fn lemma_stamps_at(&self, i: int)
        requires
            self.wf(),
            0 <= i < self.buckets@.len(),
        ensures
            self.has(self.buckets@[i].key@),
            self.stamps_of(self.buckets@[i].key@) == self.buckets@[i].stamps@,
    {
        let k = self.buckets@[i].key@;
        assert(self.buckets@[i].key@ == k);
        let j = choose|j: int| 0 <= j < self.buckets@.len() && (#[trigger] self.buckets@[j]).key@ == k;
        if j != i {
            assert(self.buckets@[i].key@ != self.buckets@[j].key@);
        }
    }

    pub fn new() -> (r: RateLimiter)
        ensures
            r.view() == Map::<Seq<char>, Seq<u128>>::empty(),
    {
        let r = RateLimiter { origin: instant_now(), buckets: Vec::new() };
        assert(r.view() =~= Map::<Seq<char>, Seq<u128>>::empty());
        r
    }

    fn find(&self, key: &str) -> (r: Option<usize>)
        requires
            self.wf(),
        ensures
            match r {
                Some(i) => i < self.buckets@.len() && self.buckets@[i as int].key@ == key@,
                None => !self.has(key@),
            },
    {
        let mut i: usize = 0;
        while i < self.buckets.len()
            invariant
                i <= self.buckets@.len(),
                forall|j: int| 0 <= j < i ==> (#[trigger] self.buckets@[j]).key@ != key@,
            decreases self.buckets.len() - i,
        {
            if str_eq(self.buckets[i].key.as_str(), key) {
                return Some(i);
            }
            i += 1;
        }
        None
    }

    /// The check at a given time: admits the request when fewer than
    /// `limit` requests of `key` lie within `window` of `now`, and records
    /// it if so; other keys are untouched.
    pub fn check_at(&mut self, key: &str, limit: usize, window: u128, now: u128) -> (r: bool)
        ensures
            r == admits(record(old(self).view(), key@), limit, window, now),
            final(self).view() == old(self).view().insert(
                key@,
                after_check(record(old(self).view(), key@), limit, window, now),
            ),
    {
        proof {
            use_type_invariant(&*self);
        }
        let idx = self.find(key);
        let ghost before = record(old(self).view(), key@);
        proof {
            match idx {
                Some(i) => {
                    self.lemma_stamps_at(i as int);
                },
                None => {},
            }
        }
        let mut kept: Vec<u128> = Vec::new();
        {
            let empty: Vec<u128> = Vec::new();
            let stamps: &Vec<u128> = match idx {
                Some(i) => &self.buckets[i].stamps,
                None => &empty,
            };
            assert(stamps@ == before);
            let mut start: usize = 0;
            assert(stamps@.skip(0) =~= stamps@);
            while start < stamps.len() && age_of(now, stamps[start]) > window
                invariant
                    start <= stamps@.len(),
                    prune_s(stamps@, now, window) == prune_s(stamps@.skip(start as int), now, window),
                decreases stamps.len() - start,
            {
                assert(stamps@.skip(start as int).drop_first() =~= stamps@.skip(start + 1));
                start += 1;
            }
            let mut k = start;
            while k < stamps.len()
                invariant
                    start <= k <= stamps@.len(),
                    kept@ == stamps@.subrange(start as int, k as int),
                decreases stamps.len() - k,
            {
                kept.push(stamps[k]);
                k += 1;
                assert(kept@ =~= stamps@.subrange(start as int, k as int));
            }
            assert(kept@ =~= stamps@.skip(start as int));
            assert(kept@ == prune_s(before, now, window)) by {
                assert(!(kept@.len() > 0 && age(now, kept@[0]) > window));
            }
        }
        let admitted = kept.len() < limit;
        if admitted {
            kept.push(now);
        }
        let ghost new_stamps = kept@;
        let ghost old_self = *self;
        let bucket = Bucket { key: owned(key), stamps: kept };
        match idx {
            Some(i) => {
                let mut bs: Vec<Bucket> = Vec::new();
                std::mem::swap(&mut bs, &mut self.buckets);
                bs.set(i, bucket);
                assert forall|a: int, b: int|
                    0 <= a < bs@.len() && 0 <= b < bs@.len() && a != b
                        implies (#[trigger] bs@[a]).key@ != (#[trigger] bs@[b]).key@ by {
                    assert(old_self.buckets@[a].key@ != old_self.buckets@[b].key@);
                }
                self.buckets = bs;
                proof {
                    assert forall|k: Seq<char>| #[trigger] self.has(k) == old_self.has(k) by {
                        if old_self.has(k) {
                            let j = choose|j: int|
                                0 <= j < old_self.buckets@.len()
                                    && (#[trigger] old_self.buckets@[j]).key@ == k;
                            assert(self.buckets@[j].key@ == k);
                        }
                        if self.has(k) {
                            let j = choose|j: int|
                                0 <= j < self.buckets@.len() && (#[trigger] self.buckets@[j]).key@ == k;
                            assert(old_self.buckets@[j].key@ == k);
                        }
                    }
                    assert forall|a: int, b: int|
                        0 <= a < self.buckets@.len() && 0 <= b < self.buckets@.len() && a != b
                            implies (#[trigger] self.buckets@[a]).key@ != (#[trigger] self.buckets@[b]).key@ by {
                        assert(old_self.buckets@[a].key@ != old_self.buckets@[b].key@);
                    }
                    assert forall|k: Seq<char>| k != key@ && #[trigger] self.has(k) implies self.stamps_of(k)
                        == old_self.stamps_of(k) by {
                        let j = choose|j: int|
                            0 <= j < self.buckets@.len() && (#[trigger] self.buckets@[j]).key@ == k;
                        self.lemma_stamps_at(j);
                        old_self.lemma_stamps_at(j);
                    }
                    self.lemma_stamps_at(i as int);
                    assert(self.view() =~= old_self.view().insert(key@, new_stamps));
                }
            },
            None => {
                let mut bs: Vec<Bucket> = Vec::new();
                std::mem::swap(&mut bs, &mut self.buckets);
                bs.push(bucket);
                let ghost n = old_self.buckets@.len() as int;
                assert(bs@[n].key@ == key@);
                assert forall|a: int, b: int|
                    0 <= a < bs@.len() && 0 <= b < bs@.len() && a != b
                        implies (#[trigger] bs@[a]).key@ != (#[trigger] bs@[b]).key@ by {
                    if a < n && b < n {
                        assert(old_self.buckets@[a].key@ != old_self.buckets@[b].key@);
                    } else if a < n {
                        assert(old_self.buckets@[a].key@ == bs@[a].key@);
                        assert(!old_self.has(key@));
                    } else if b < n {
                        assert(old_self.buckets@[b].key@ == bs@[b].key@);
                        assert(!old_self.has(key@));
                    }
                }
                self.buckets = bs;
                proof {
                    let n = old_self.buckets@.len() as int;
                    assert(self.buckets@[n].key@ == key@);
                    assert forall|k: Seq<char>| #[trigger] self.has(k) == (old_self.has(k) || k == key@) by {
                        if old_self.has(k) {
                            let j = choose|j: int|
                                0 <= j < old_self.buckets@.len()
                                    && (#[trigger] old_self.buckets@[j]).key@ == k;
                            assert(self.buckets@[j].key@ == k);
                        }
                        if self.has(k) && k != key@ {
                            let j = choose|j: int|
                                0 <= j < self.buckets@.len() && (#[trigger] self.buckets@[j]).key@ == k;
                            assert(j < n);
                            assert(old_self.buckets@[j].key@ == k);
                        }
                    }
                    assert forall|a: int, b: int|
                        0 <= a < self.buckets@.len() && 0 <= b < self.buckets@.len() && a != b
                            implies (#[trigger] self.buckets@[a]).key@ != (#[trigger] self.buckets@[b]).key@ by {
                        if a < n && b < n {
                            assert(old_self.buckets@[a].key@ != old_self.buckets@[b].key@);
                        } else if a < n {
                            assert(old_self.buckets@[a].key@ == self.buckets@[a].key@);
                        } else if b < n {
                            assert(old_self.buckets@[b].key@ == self.buckets@[b].key@);
                        }
                    }
                    assert forall|k: Seq<char>| k != key@ && #[trigger] self.has(k) implies self.stamps_of(k)
                        == old_self.stamps_of(k) by {
                        let j = choose|j: int|
                            0 <= j < self.buckets@.len() && (#[trigger] self.buckets@[j]).key@ == k;
                        assert(j < n);
                        self.lemma_stamps_at(j);
                        old_self.lemma_stamps_at(j);
                    }
                    self.lemma_stamps_at(n);
                    assert(self.view() =~= old_self.view().insert(key@, new_stamps));
                }
            },
        }
        admitted
    }

    /// Admits and records a request of `key` if fewer than `limit` of its
    /// requests fall within the last `window_secs` seconds; other keys are
    /// untouched.  The time is the clock's; the window is the argument.
    pub fn check(&mut self, key: &str, limit: usize, window_secs: u64) -> (r: bool)
        ensures
            exists|now: u128|
                #![trigger after_check(record(old(self).view(), key@), limit, secs_to_nanos(window_secs), now)]
                r == admits(record(old(self).view(), key@), limit, secs_to_nanos(window_secs), now)
                    && final(self).view() == old(self).view().insert(
                    key@,
                    after_check(record(old(self).view(), key@), limit, secs_to_nanos(window_secs), now),
                ),
    {
        assert(window_secs * 1_000_000_000 <= u128::MAX) by (nonlinear_arith)
            requires
                window_secs <= u64::MAX,
        ;
        let w: u128 = window_secs as u128 * 1_000_000_000u128;
        assert(w == secs_to_nanos(window_secs));
        let t = instant_now();
        let now = nanos_between(&self.origin, &t);
        let ghost before = record(self.view(), key@);
        let r = self.check_at(key, limit, w, now);
        assert(after_check(before, limit, secs_to_nanos(window_secs), now) == after_check(before, limit, w, now));
        r
    }

    /// Drops the keys without a request in the last half hour, as of `now`.
    pub fn gc_at(&mut self, now: u128)
        ensures
            final(self).view() == gc_result(old(self).view(), now),
    {
        proof {
            use_type_invariant(&*self);
        }
        let ghost old_self = *self;
        let mut old_buckets: Vec<Bucket> = Vec::new();
        std::mem::swap(&mut old_buckets, &mut self.buckets);
        let mut kept: Vec<Bucket> = Vec::new();
        let mut rest = old_buckets;
        let ghost src = rest@;
        let ghost mut idx: Seq<int> = Seq::empty();
        let mut i: usize = 0;
        assert(src.subrange(0, src.len() as int) =~= src);
        assert(src.len() == rest.len());
        while rest.len() > 0
            invariant
                src == old_self.buckets@,
                src.len() <= usize::MAX,
                i + rest@.len() == src.len(),
                rest@ == src.subrange(i as int, src.len() as int),
                i <= src.len(),
                idx.len() == kept@.len(),
                forall|a: int| 0 <= a < idx.len() ==> 0 <= #[trigger] idx[a] < i && src[idx[a]] == kept@[a]
                    && gc_keeps(src[idx[a]].stamps@, now),
                forall|a: int, c: int| 0 <= a < c < idx.len() ==> #[trigger] idx[a] < #[trigger] idx[c],
                forall|b: int| 0 <= b < i && gc_keeps(#[trigger] src[b].stamps@, now) ==> exists|a: int|
                    0 <= a < idx.len() && idx[a] == b,
            decreases rest.len(),
        {
            let b = rest.remove(0);
            assert(b == src[i as int]);
            let ghost old_idx = idx;
            let n = b.stamps.len();
            let keep = n > 0 && age_of(now, b.stamps[n - 1]) < 1_800_000_000_000;
            assert(keep == gc_keeps(b.stamps@, now));
            if keep {
                kept.push(b);
                proof {
                    idx = idx.push(i as int);
                }
            }
            i += 1;
            assert(rest@ =~= src.subrange(i as int, src.len() as int));
            assert forall|bb: int| 0 <= bb < i && gc_keeps(#[trigger] src[bb].stamps@, now) implies exists|a: int|
                0 <= a < idx.len() && idx[a] == bb by {
                if bb == i - 1 {
                    assert(idx[idx.len() - 1] == bb);
                } else {
                    let a = choose|a: int| 0 <= a < old_idx.len() && old_idx[a] == bb;
                    assert(idx[a] == bb);
                }
            }
        }
        assert(i == src.len()) by {
            assert(rest@.len() == 0);
        }
        assert forall|a: int, c: int|
            0 <= a < kept@.len() && 0 <= c < kept@.len() && a != c
                implies (#[trigger] kept@[a]).key@ != (#[trigger] kept@[c]).key@ by {
            if a < c {
                assert(idx[a] < idx[c]);
            } else {
                assert(idx[c] < idx[a]);
            }
            assert(src[idx[a]].key@ != src[idx[c]].key@);
        }
        self.buckets = kept;
        proof {
            let dom = old_self.view().dom().filter(|k: Seq<char>| gc_keeps(old_self.view()[k], now));
            assert forall|k: Seq<char>| #[trigger] self.has(k) == dom.contains(k) by {
                if self.has(k) {
                    let a = choose|a: int| 0 <= a < self.buckets@.len() && (#[trigger] self.buckets@[a]).key@ == k;
                    old_self.lemma_stamps_at(idx[a]);
                    assert(old_self.view().dom().contains(k));
                }
                if dom.contains(k) {
                    assert(old_self.has(k));
                    let b = choose|b: int| 0 <= b < old_self.buckets@.len() && (#[trigger] old_self.buckets@[b]).key@ == k;
                    old_self.lemma_stamps_at(b);
                    assert(gc_keeps(src[b].stamps@, now));
                    let a = choose|a: int| 0 <= a < idx.len() && idx[a] == b;
                    assert(self.buckets@[a].key@ == k);
                }
            }
            assert forall|k: Seq<char>| #[trigger] self.has(k) implies self.stamps_of(k) == old_self.stamps_of(k) by {
                let a = choose|a: int| 0 <= a < self.buckets@.len() && (#[trigger] self.buckets@[a]).key@ == k;
                self.lemma_stamps_at(a);
                old_self.lemma_stamps_at(idx[a]);
            }
            assert(self.view() =~= old_self.view().restrict(dom));
        }
    }

    /// Drops the keys without a request in the last half hour.
    pub fn gc(&mut self)
        ensures
            exists|now: u128| final(self).view() == #[trigger] gc_result(old(self).view(), now),
    {
        let t = instant_now();
        let now = nanos_between(&self.origin, &t);
        self.gc_at(now)
    }
}

/// When every stamp is older than the window, pruning leaves nothing.
proof fn lemma_prune_all_old(s: Seq<u128>, now: u128, window: u128)
    requires
        forall|i: int| 0 <= i < s.len() ==> age(now, #[trigger] s[i]) > window,
    ensures
        prune_s(s, now, window).len() == 0,
    decreases s.len(),
{
    if s.len() > 0 {
        assert forall|i: int| 0 <= i < s.drop_first().len() implies age(now, #[trigger] s.drop_first()[i]) > window by {
            assert(s.drop_first()[i] == s[i + 1]);
        }
        lemma_prune_all_old(s.drop_first(), now, window);
    }
}

/// A full window refuses: once `limit` admitted requests of a key lie
/// within the window of `now`, a check at `now` refuses, and the refused
/// request is not recorded.
pub proof fn lemma_full_window_refuses(stamps: Seq<u128>, limit: usize, window: u128, now: u128)
    requires
        stamps.len() >= limit,
        forall|i: int| 0 <= i < stamps.len() ==> age(now, #[trigger] stamps[i]) <= window,
    ensures
        !admits(stamps, limit, window, now),
        after_check(stamps, limit, window, now) == stamps,
{
    if stamps.len() > 0 {
        assert(age(now, stamps[0]) <= window);
    }
    assert(prune_s(stamps, now, window) == stamps);
}

/// A limit of zero admits nothing and records nothing.
pub proof fn lemma_zero_limit_refuses(stamps: Seq<u128>, window: u128, now: u128)
    ensures
        !admits(stamps, 0, window, now),
        after_check(stamps, 0, window, now) == prune_s(stamps, now, window),
{
}

/// `gc` changes no later answer: for a key whose request times are in
/// order (as a monotone clock records them), a check at or after the `gc`
/// with a window under half an hour admits, and records, exactly as it
/// would have without the `gc`.
pub proof fn lemma_gc_then_check(
    m: Map<Seq<char>, Seq<u128>>,
    gc_now: u128,
    k: Seq<char>,
    limit: usize,
    window: u128,
    now: u128,
)
    requires
        forall|i: int, j: int|
            0 <= i <= j < record(m, k).len() ==> #[trigger] record(m, k)[i] <= #[trigger] record(m, k)[j],
        gc_now <= now,
        window < 1_800_000_000_000,
    ensures
        admits(record(gc_result(m, gc_now), k), limit, window, now) == admits(record(m, k), limit, window, now),
        after_check(record(gc_result(m, gc_now), k), limit, window, now) == after_check(
            record(m, k),
            limit,
            window,
            now,
        ),
{
    let g = gc_result(m, gc_now);
    if m.dom().contains(k) && gc_keeps(m[k], gc_now) {
        assert(g.dom().contains(k));
        assert(record(g, k) == record(m, k));
    } else {
        assert(!g.dom().contains(k));
        assert(record(g, k) =~= Seq::<u128>::empty());
        let s = record(m, k);
        if s.len() > 0 {
            assert forall|i: int| 0 <= i < s.len() implies age(now, #[trigger] s[i]) > window by {
                assert(s[i] <= s[s.len() - 1]);
            }
            lemma_prune_all_old(s, now, window);
        } else {
            assert(s =~= Seq::<u128>::empty());
        }
        lemma_prune_all_old(Seq::<u128>::empty(), now, window);
        assert(prune_s(s, now, window) =~= prune_s(record(g, k), now, window));
    }
}


/// Times in the order a monotone clock gives them.
pub open spec fn in_order(s: Seq<u128>) -> bool {
    forall|i: int, j: int| 0 <= i <= j < s.len() ==> s[i] <= s[j]
}

/// Whether a request at `t` lies within `window` of `now`.
pub open spec fn within(now: u128, window: u128) -> spec_fn(u128) -> bool {
    |t: u128| age(now, t) <= window
}

/// The requests of `a` that lie within `window` of `now`.
pub open spec fn recent(a: Seq<u128>, now: u128, window: u128) -> Seq<u128> {
    a.filter(within(now, window))
}

/// The record of a key after checks at the instants `nows` (same limit and
/// window), starting from no record: what successive `check_at` calls leave.
pub open spec fn record_after(nows: Seq<u128>, limit: usize, window: u128) -> Seq<u128>
    decreases nows.len(),
{
    if nows.len() == 0 {
        Seq::empty()
    } else {
        after_check(record_after(nows.drop_last(), limit, window), limit, window, nows.last())
    }
}

/// The instants of the requests that those checks admitted, in order.
pub open spec fn admitted(nows: Seq<u128>, limit: usize, window: u128) -> Seq<u128>
    decreases nows.len(),
{
    if nows.len() == 0 {
        Seq::empty()
    } else if admits(record_after(nows.drop_last(), limit, window), limit, window, nows.last()) {
        admitted(nows.drop_last(), limit, window).push(nows.last())
    } else {
        admitted(nows.drop_last(), limit, window)
    }
}

proof fn lemma_recent_all(s: Seq<u128>, now: u128, window: u128)
    requires
        forall|i: int| 0 <= i < s.len() ==> age(now, #[trigger] s[i]) <= window,
    ensures
        recent(s, now, window) == s,
    decreases s.len(),
{
    broadcast use Seq::lemma_filter_push;

    if s.len() == 0 {
        reveal(Seq::filter);
    } else {
        let d = s.drop_last();
        assert forall|i: int| 0 <= i < d.len() implies age(now, #[trigger] d[i]) <= window by {
            assert(d[i] == s[i]);
        }
        lemma_recent_all(d, now, window);
        assert(d.push(s.last()) =~= s);
        assert(within(now, window)(s.last()));
    }
}

proof fn lemma_prune_is_recent(s: Seq<u128>, now: u128, window: u128)
    requires
        in_order(s),
        forall|i: int| 0 <= i < s.len() ==> #[trigger] s[i] <= now,
    ensures
        prune_s(s, now, window) == recent(s, now, window),
    decreases s.len(),
{
    broadcast use Seq::lemma_filter_prepend;

    if s.len() == 0 {
        reveal(Seq::filter);
    } else if age(now, s[0]) > window {
        let d = s.drop_first();
        assert forall|i: int| 0 <= i < d.len() implies #[trigger] d[i] <= now by {
            assert(d[i] == s[i + 1]);
        }
        assert forall|i: int, j: int| 0 <= i <= j < d.len() implies d[i] <= d[j] by {
            assert(d[i] == s[i + 1] && d[j] == s[j + 1]);
        }
        lemma_prune_is_recent(d, now, window);
        assert(seq![s[0]] + d =~= s);
        assert(!within(now, window)(s[0]));
        assert(d.filter(within(now, window)) =~= Seq::<u128>::empty() + d.filter(within(now, window)));
    } else {
        assert forall|i: int| 0 <= i < s.len() implies age(now, #[trigger] s[i]) <= window by {
            assert(s[0] <= s[i]);
        }
        lemma_recent_all(s, now, window);
    }
}

proof fn lemma_recent_twice(a: Seq<u128>, t1: u128, t2: u128, window: u128)
    requires
        t1 <= t2,
        forall|i: int| 0 <= i < a.len() ==> #[trigger] a[i] <= t1,
    ensures
        recent(recent(a, t1, window), t2, window) == recent(a, t2, window),
    decreases a.len(),
{
    broadcast use Seq::lemma_filter_push;

    if a.len() == 0 {
        reveal(Seq::filter);
    } else {
        let d = a.drop_last();
        let x = a.last();
        assert forall|i: int| 0 <= i < d.len() implies #[trigger] d[i] <= t1 by {
            assert(d[i] == a[i]);
        }
        lemma_recent_twice(d, t1, t2, window);
        assert(d.push(x) =~= a);
        assert(x <= t1);
        if within(t1, window)(x) {
            assert(recent(a, t1, window) == recent(d, t1, window).push(x));
        } else {
            assert(!within(t2, window)(x));
            assert(recent(a, t1, window) == recent(d, t1, window));
        }
    }
}

proof fn lemma_recent_in_order(s: Seq<u128>, now: u128, window: u128)
    requires
        in_order(s),
    ensures
        in_order(recent(s, now, window)),
        recent(s, now, window).len() > 0 ==> s.len() > 0 && recent(s, now, window).last() <= s.last(),
    decreases s.len(),
{
    broadcast use Seq::lemma_filter_push;

    if s.len() == 0 {
        reveal(Seq::filter);
    } else {
        let d = s.drop_last();
        let x = s.last();
        assert forall|i: int, j: int| 0 <= i <= j < d.len() implies d[i] <= d[j] by {
            assert(d[i] == s[i] && d[j] == s[j]);
        }
        lemma_recent_in_order(d, now, window);
        assert(d.push(x) =~= s);
        let rd = recent(d, now, window);
        if rd.len() > 0 {
            assert(d.last() <= x) by {
                assert(d.last() == s[d.len() - 1]);
            }
        }
        if within(now, window)(x) {
            let r = rd.push(x);
            assert forall|i: int, j: int| 0 <= i <= j < r.len() implies r[i] <= r[j] by {
                if j == r.len() - 1 && i < j {
                    assert(rd[i] <= rd.last());
                }
            }
        }
    }
}

/// The state that checks at `nows` leave: the record holds exactly the
/// admitted requests within the window of the last check, and the admitted
/// instants are in order and no later than the last check.
proof fn lemma_history_state(nows: Seq<u128>, limit: usize, window: u128)
    requires
        in_order(nows),
    ensures
        in_order(admitted(nows, limit, window)),
        nows.len() == 0 ==> record_after(nows, limit, window) == Seq::<u128>::empty()
            && admitted(nows, limit, window) == Seq::<u128>::empty(),
        nows.len() > 0 ==> record_after(nows, limit, window) == recent(
            admitted(nows, limit, window),
            nows.last(),
            window,
        ) && (forall|i: int|
            0 <= i < admitted(nows, limit, window).len() ==> #[trigger] admitted(nows, limit, window)[i]
                <= nows.last()),
    decreases nows.len(),
{
    broadcast use Seq::lemma_filter_push;

    if nows.len() > 0 {
        let prev = nows.drop_last();
        let now = nows.last();
        assert forall|i: int, j: int| 0 <= i <= j < prev.len() implies prev[i] <= prev[j] by {
            assert(prev[i] == nows[i] && prev[j] == nows[j]);
        }
        lemma_history_state(prev, limit, window);
        let r = record_after(prev, limit, window);
        let a = admitted(prev, limit, window);
        if prev.len() > 0 {
            assert(prev.last() <= now) by {
                assert(prev.last() == nows[prev.len() - 1]);
            }
            lemma_recent_in_order(a, prev.last(), window);
            assert forall|i: int| 0 <= i < r.len() implies #[trigger] r[i] <= now by {
                if r.len() > 0 {
                    assert(r[i] <= r.last());
                    assert(a[a.len() - 1] <= prev.last());
                }
            }
            lemma_prune_is_recent(r, now, window);
            lemma_recent_twice(a, prev.last(), now, window);
        } else {
            reveal(Seq::filter);
            lemma_prune_all_old(r, now, window);
            assert(prune_s(r, now, window) =~= Seq::<u128>::empty());
        }
        assert(prune_s(r, now, window) == recent(a, now, window));
        assert(within(now, window)(now));
        let na = admitted(nows, limit, window);
        assert forall|i: int| 0 <= i < na.len() implies #[trigger] na[i] <= now by {
            if i < a.len() {
                assert(na[i] == a[i]);
                if prev.len() > 0 {
                    assert(prev.last() <= now);
                }
            }
        }
        assert forall|i: int, j: int| 0 <= i <= j < na.len() implies na[i] <= na[j] by {
            if i < a.len() {
                assert(na[i] == a[i]);
            }
            if j < a.len() {
                assert(na[j] == a[j]);
            }
        }
    }
}

/// The sliding window over a whole history: when one key is checked at
/// instants in clock order, with one limit and window, the last check
/// admits exactly when fewer than `limit` of the earlier admitted requests
/// lie within the window of its instant; a refused request is never
/// counted (it is not among the admitted ones), and afterwards the record
/// holds exactly the admitted requests within the window of that instant,
/// in order (so `lemma_gc_then_check` applies to it).
pub proof fn lemma_sliding_window(nows: Seq<u128>, limit: usize, window: u128)
    requires
        nows.len() > 0,
        in_order(nows),
    ensures
        admits(record_after(nows.drop_last(), limit, window), limit, window, nows.last()) == (recent(
            admitted(nows.drop_last(), limit, window),
            nows.last(),
            window,
        ).len() < limit),
        record_after(nows, limit, window) == recent(admitted(nows, limit, window), nows.last(), window),
        in_order(record_after(nows, limit, window)),
{
    lemma_history_state(nows, limit, window);
    lemma_recent_in_order(admitted(nows, limit, window), nows.last(), window);
    let prev = nows.drop_last();
    let now = nows.last();
    assert forall|i: int, j: int| 0 <= i <= j < prev.len() implies prev[i] <= prev[j] by {
        assert(prev[i] == nows[i] && prev[j] == nows[j]);
    }
    lemma_history_state(prev, limit, window);
    let r = record_after(prev, limit, window);
    let a = admitted(prev, limit, window);
    if prev.len() > 0 {
        assert(prev.last() <= now) by {
            assert(prev.last() == nows[prev.len() - 1]);
        }
        lemma_recent_in_order(a, prev.last(), window);
        assert forall|i: int| 0 <= i < r.len() implies #[trigger] r[i] <= now by {
            assert(r[i] <= r.last());
            assert(a[a.len() - 1] <= prev.last());
        }
        lemma_prune_is_recent(r, now, window);
        lemma_recent_twice(a, prev.last(), now, window);
    } else {
        reveal(Seq::filter);
        lemma_prune_all_old(r, now, window);
    }
}

} // verus!
