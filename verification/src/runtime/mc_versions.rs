//! Minecraft version → minimum Java major.
//!
//! Covers the Paper range from 1.16.5 on; unknown or unparsable versions
//! fall back to the largest known requirement (21).
use crate::mcserver::props::lemma_split_append_plain;
use crate::text::{
    all_digits, chars_of, decimal, digit_prefix, digit_prefix_len, digits_value, is_digit, is_ws,
    lemma_decimal_digits, lemma_digit_prefix, parse_uint, parse_uint_s, pieces_view, split_chars,
    split_s, starts_with, starts_with_s, trim, trim_end_s, trim_s, trim_start_s,
};
use vstd::prelude::*;

verus! {

pub open spec fn u32_max() -> nat {
    0xffff_ffff
}

/// `"1.20.4"` → `(1, 20, 4)`, `"1.21"` → `(1, 21, 0)`; a patch such as
/// `"4-pre1"` counts by its leading digits.
pub open spec fn parse_mc_version_s(s: Seq<char>) -> Option<(nat, nat, nat)> {
    let ps = split_s(trim_s(s), '.');
    let patch_raw = if ps.len() >= 3 {
        ps[2]
    } else {
        seq!['0']
    };
    let patch_num = patch_raw.take(digit_prefix_len(patch_raw) as int);
    let patch = if patch_num.len() == 0 {
        Some(0nat)
    } else {
        parse_uint_s(patch_num, u32_max())
    };
    if ps.len() < 2 {
        None
    } else {
        match (parse_uint_s(ps[0], u32_max()), parse_uint_s(ps[1], u32_max()), patch) {
            (Some(a), Some(b), Some(c)) => Some((a, b, c)),
            _ => None,
        }
    }
}

/// The Java major needed by a `1.minor.patch` release.
pub open spec fn java_for_release(minor: nat, patch: nat) -> u32 {
    if minor >= 21 {
        21
    } else if minor == 20 && patch >= 5 {
        21
    } else if minor == 20 || minor == 18 || minor == 19 {
        17
    } else if minor == 17 {
        16
    } else {
        8
    }
}

/// The Java major that `required_java_major` reports for a version string.
pub open spec fn required_java_major_s(v: Seq<char>) -> u32 {
    if !starts_with_s(v, seq!['1', '.']) {
        21
    } else {
        match parse_mc_version_s(v) {
            Some((_major, minor, patch)) => java_for_release(minor, patch),
            None => 21,
        }
    }
}

fn parse_u32_chars(s: &[char]) -> (r: Option<u32>)
    ensures
        match parse_uint_s(s@, u32_max()) {
            Some(v) => r == Some(v as u32),
            None => r is None,
        },
{
    match parse_uint(s, 0xffff_ffff) {
        Some(v) => Some(v as u32),
        None => None,
    }
}

/// Splits a version string into `(major, minor, patch)`.
pub fn parse_mc_version(s: &str) -> (r: Option<(u32, u32, u32)>)
    ensures
        match parse_mc_version_s(s@) {
            Some((a, b, c)) => r == Some((a as u32, b as u32, c as u32)),
            None => r is None,
        },
{
    let t = trim(s);
    let tc = chars_of(t.as_str());
    let ps = split_chars(tc.as_slice(), '.');
    let ghost sp = split_s(trim_s(s@), '.');
    assert(pieces_view(ps@) == sp);
    let zero = vec!['0'];
    let patch_raw: &Vec<char> = if ps.len() >= 3 {
        assert(ps@[2]@ == sp[2]);
        &ps[2]
    } else {
        assert(zero@ =~= seq!['0']);
        &zero
    };
    let patch_num = digit_prefix(patch_raw.as_slice());
    let patch: Option<u32> = if patch_num.len() == 0 {
        Some(0)
    } else {
        parse_u32_chars(patch_num.as_slice())
    };
    if ps.len() < 2 {
        return None;
    }
    assert(ps@[0]@ == sp[0]);
    assert(ps@[1]@ == sp[1]);
    let major = parse_u32_chars(ps[0].as_slice());
    let minor = parse_u32_chars(ps[1].as_slice());
    match (major, minor, patch) {
        (Some(a), Some(b), Some(c)) => Some((a, b, c)),
        _ => None,
    }
}

/// Minimum Java major for a Minecraft version string.
///
/// Versions outside the `1.x` scheme (the year-numbered `26.x` releases and
/// anything else) need 21; unparsable `1.x` strings fall back to 21 as well.
pub fn required_java_major(mc_version: &str) -> (r: u32)
    ensures
        r == required_java_major_s(mc_version@),
{
    let v = chars_of(mc_version);
    let prefix = ['1', '.'];
    assert(prefix@ =~= seq!['1', '.']);
    if !starts_with(v.as_slice(), &prefix) {
        return 21;
    }
    match parse_mc_version(mc_version) {
        Some((_major, minor, patch)) => {
            if minor >= 21 {
                21
            } else if minor == 20 && patch >= 5 {
                21
            } else if minor == 20 || minor == 18 || minor == 19 {
                17
            } else if minor == 17 {
                16
            } else {
                8
            }
        },
        None => 21,
    }
}


/// The release string `1.minor.patch`.
pub open spec fn release_s(minor: nat, patch: nat) -> Seq<char> {
    seq!['1', '.'] + decimal(minor) + seq!['.'] + decimal(patch)
}

/// The release string `1.minor`, without a patch number.
pub open spec fn release_short_s(minor: nat) -> Seq<char> {
    seq!['1', '.'] + decimal(minor)
}

proof fn lemma_digits_free_of(d: Seq<char>, c: char)
    requires
        all_digits(d),
        !is_digit(c),
    ensures
        forall|j: int| 0 <= j < d.len() ==> d[j] != c,
{
    assert forall|j: int| 0 <= j < d.len() implies d[j] != c by {
        assert(is_digit(d[j]));
    }
}

proof fn lemma_parse_decimal(n: nat)
    requires
        n <= u32_max(),
    ensures
        parse_uint_s(decimal(n), u32_max()) == Some(n),
        digit_prefix_len(decimal(n)) == decimal(n).len(),
        decimal(n).len() > 0,
        !is_ws(decimal(n).last()),
        decimal(n)[0] != '+',
        forall|j: int| 0 <= j < decimal(n).len() ==> decimal(n)[j] != '.',
{
    lemma_decimal_digits(n);
    let d = decimal(n);
    lemma_digit_prefix(d);
    if digit_prefix_len(d) < d.len() {
        assert(is_digit(d[digit_prefix_len(d) as int]));
    }
    assert(is_digit(d.last()));
    assert(is_digit(d[0]));
    lemma_digits_free_of(d, '.');
}

proof fn lemma_parse_release(minor: nat, patch: nat)
    requires
        minor <= u32_max(),
        patch <= u32_max(),
    ensures
        parse_mc_version_s(release_s(minor, patch)) == Some((1nat, minor, patch)),
        parse_mc_version_s(release_short_s(minor)) == Some((1nat, minor, 0nat)),
        starts_with_s(release_s(minor, patch), seq!['1', '.']),
        starts_with_s(release_short_s(minor), seq!['1', '.']),
{
    lemma_parse_decimal(minor);
    lemma_parse_decimal(patch);
    let dm = decimal(minor);
    let dp = decimal(patch);
    let one = seq!['1'];
    let e = Seq::<char>::empty();
    // split of "1"
    assert(split_s(e, '.') =~= seq![e]);
    lemma_split_append_plain(e, one, '.');
    assert(e + one =~= one);
    assert(split_s(one, '.') =~= seq![one]);
    // "1."
    let a1 = one + seq!['.'];
    assert(a1.drop_last() =~= one);
    assert(split_s(a1, '.') =~= seq![one, e]);
    // "1." + dm
    let a2 = a1 + dm;
    lemma_split_append_plain(a1, dm, '.');
    assert(split_s(a2, '.') =~= seq![one, dm]);
    assert(a2 =~= release_short_s(minor));
    // "1." + dm + "."
    let a3 = a2 + seq!['.'];
    assert(a3.drop_last() =~= a2);
    assert(split_s(a3, '.') =~= seq![one, dm, e]);
    let a4 = a3 + dp;
    lemma_split_append_plain(a3, dp, '.');
    assert(split_s(a4, '.') =~= seq![one, dm, dp]);
    assert(a4 =~= release_s(minor, patch));
    // both are their own trim
    assert(!is_ws('1'));
    assert(trim_start_s(a4) == a4);
    assert(a4.last() == dp.last());
    assert(trim_end_s(a4) == a4);
    assert(trim_start_s(a2) == a2);
    assert(a2.last() == dm.last());
    assert(trim_end_s(a2) == a2);
    // "1" parses as 1, a missing patch as 0
    assert(digits_value(one) == 1) by {
        assert(one.drop_last() =~= e);
        assert(digits_value(e) == 0);
        assert(one.last() == '1');
        assert(('1' as u32) == 49);
    }
    assert(all_digits(one));
    assert(parse_uint_s(one, u32_max()) == Some(1nat));
    assert(dp.take(dp.len() as int) =~= dp);
    let z = seq!['0'];
    assert(is_digit(z[0]));
    assert(z.drop_first() =~= e);
    assert(digit_prefix_len(e) == 0);
    assert(digit_prefix_len(z) == 1 + digit_prefix_len(z.drop_first()));
    assert(digit_prefix_len(z) == 1);
    assert(z.take(1) =~= z);
    assert(all_digits(z));
    assert(digits_value(z) == 0) by {
        assert(z.drop_last() =~= e);
        assert(digits_value(e) == 0);
        assert(('0' as u32) == 48);
    }
    assert(a4.subrange(0, 2) =~= seq!['1', '.']);
    assert(a2.subrange(0, 2) =~= seq!['1', '.']);
}

/// The Java major each `1.minor.patch` release needs, for every release:
/// 8 up to 1.16, 16 for 1.17, 17 for 1.18 to 1.20.4, 21 from 1.20.5 on;
/// `1.minor` without a patch needs what `1.minor.0` needs.
pub proof fn lemma_java_by_release(minor: nat, patch: nat)
    requires
        minor <= u32_max(),
        patch <= u32_max(),
    ensures
        minor <= 16 ==> required_java_major_s(release_s(minor, patch)) == 8,
        minor == 17 ==> required_java_major_s(release_s(minor, patch)) == 16,
        (minor == 18 || minor == 19 || (minor == 20 && patch < 5)) ==> required_java_major_s(
            release_s(minor, patch),
        ) == 17,
        (minor >= 21 || (minor == 20 && patch >= 5)) ==> required_java_major_s(release_s(minor, patch))
            == 21,
        required_java_major_s(release_short_s(minor)) == required_java_major_s(release_s(minor, 0)),
{
    lemma_parse_release(minor, patch);
    lemma_parse_release(minor, 0);
}

/// Versions outside the `1.x` scheme (the year-numbered releases such as
/// `26.1`) need Java 21, as does a `1.x` string that does not parse.
pub proof fn lemma_java_outside_scheme(v: Seq<char>)
    ensures
        !(v.len() >= 2 && v[0] == '1' && v[1] == '.') ==> required_java_major_s(v) == 21,
        parse_mc_version_s(v) is None ==> required_java_major_s(v) == 21,
{
    if !(v.len() >= 2 && v[0] == '1' && v[1] == '.') {
        if starts_with_s(v, seq!['1', '.']) {
            assert(v.subrange(0, 2)[0] == v[0]);
            assert(v.subrange(0, 2)[1] == v[1]);
        }
    }
}

/// A later release never needs an older Java.
pub proof fn lemma_java_monotone(m1: nat, p1: nat, m2: nat, p2: nat)
    requires
        m1 <= u32_max(),
        p1 <= u32_max(),
        m2 <= u32_max(),
        p2 <= u32_max(),
        m1 < m2 || (m1 == m2 && p1 <= p2),
    ensures
        required_java_major_s(release_s(m1, p1)) <= required_java_major_s(release_s(m2, p2)),
{
    lemma_java_by_release(m1, p1);
    lemma_java_by_release(m2, p2);
}

} // verus!
