//! Standard base64 (RFC 4648, `+` and `/`, `=` padding), decoding only: the
//! form in which `mc_plugin_upload` carries a jar inside JSON.  Padding may
//! only end the text, whose length is a multiple of four; unused low bits
//! of the last character before padding are ignored.
use crate::text::chars_of;
use vstd::prelude::*;

verus! {

/// The six-bit value of a base64 character.
pub open spec fn b64_val(c: char) -> Option<u8> {
    let n = c as int;
    if 65 <= n <= 90 {
        Some((n - 65) as u8)
    } else if 97 <= n <= 122 {
        Some((n - 97 + 26) as u8)
    } else if 48 <= n <= 57 {
        Some((n - 48 + 52) as u8)
    } else if c == '+' {
        Some(62u8)
    } else if c == '/' {
        Some(63u8)
    } else {
        None
    }
}

pub open spec fn byte0(a: u8, b: u8) -> u8 {
    (a * 4 + b / 16) as u8
}

pub open spec fn byte1(b: u8, c: u8) -> u8 {
    ((b % 16) * 16 + c / 4) as u8
}

pub open spec fn byte2(c: u8, d: u8) -> u8 {
    ((c % 4) * 64 + d) as u8
}

/// The three bytes of four characters without padding.
pub open spec fn quad_s(g: Seq<char>) -> Option<Seq<u8>> {
    match (b64_val(g[0]), b64_val(g[1]), b64_val(g[2]), b64_val(g[3])) {
        (Some(a), Some(b), Some(c), Some(d)) => Some(seq![byte0(a, b), byte1(b, c), byte2(c, d)]),
        _ => None,
    }
}

/// The bytes of whole groups without padding.
pub open spec fn groups_s(s: Seq<char>) -> Option<Seq<u8>>
    decreases s.len(),
{
    if s.len() < 4 {
        if s.len() == 0 {
            Some(Seq::empty())
        } else {
            None
        }
    } else {
        match (quad_s(s.take(4)), groups_s(s.skip(4))) {
            (Some(x), Some(y)) => Some(x + y),
            _ => None,
        }
    }
}

/// The bytes of the last group, which may end in `=` or `==`.
pub open spec fn last_group_s(g: Seq<char>) -> Option<Seq<u8>> {
    if g[3] != '=' {
        quad_s(g)
    } else if g[2] != '=' {
        match (b64_val(g[0]), b64_val(g[1]), b64_val(g[2])) {
            (Some(a), Some(b), Some(c)) => Some(seq![byte0(a, b), byte1(b, c)]),
            _ => None,
        }
    } else {
        match (b64_val(g[0]), b64_val(g[1])) {
            (Some(a), Some(b)) => Some(seq![byte0(a, b)]),
            _ => None,
        }
    }
}

/// What a base64 text decodes to, or `None` when it is not base64.
pub open spec fn base64_decode_s(s: Seq<char>) -> Option<Seq<u8>> {
    if s.len() == 0 {
        Some(Seq::empty())
    } else if s.len() % 4 != 0 {
        None
    } else {
        match (groups_s(s.take(s.len() - 4)), last_group_s(s.skip(s.len() - 4))) {
            (Some(x), Some(y)) => Some(x + y),
            _ => None,
        }
    }
}

fn digit(ch: char) -> (r: Option<u8>)
    ensures
        r == b64_val(ch),
        r matches Some(v) ==> v < 64,
{
    let n = ch as u32;
    if 65 <= n && n <= 90 {
        Some((n - 65) as u8)
    } else if 97 <= n && n <= 122 {
        Some((n - 97 + 26) as u8)
    } else if 48 <= n && n <= 57 {
        Some((n - 48 + 52) as u8)
    } else if ch == '+' {
        Some(62u8)
    } else if ch == '/' {
        Some(63u8)
    } else {
        None
    }
}

fn join0(a: u8, b: u8) -> (r: u8)
    requires
        a < 64,
        b < 64,
    ensures
        r == byte0(a, b),
{
    a * 4 + b / 16
}

fn join1(b: u8, c: u8) -> (r: u8)
    requires
        b < 64,
        c < 64,
    ensures
        r == byte1(b, c),
{
    (b % 16) * 16 + c / 4
}

fn join2(c: u8, d: u8) -> (r: u8)
    requires
        c < 64,
        d < 64,
    ensures
        r == byte2(c, d),
{
    (c % 4) * 64 + d
}

/// Decodes standard base64; `None` when the text is not base64.
pub fn base64_decode(s: &str) -> (r: Option<Vec<u8>>)
    ensures
        match base64_decode_s(s@) {
            Some(b) => r matches Some(v) && v@ == b,
            None => r is None,
        },
{
    let c = chars_of(s);
    let n = c.len();
    let mut out: Vec<u8> = Vec::new();
    if n == 0 {
        return Some(out);
    }
    if n % 4 != 0 {
        return None;
    }
    let head_len = n - 4;
    let ghost h = c@.take(head_len as int);
    let mut i: usize = 0;
    proof {
        assert(h.skip(0) =~= h);
        match groups_s(h) {
            Some(rest) => assert(out@ + rest =~= rest),
            None => {},
        }
    }
    while i < head_len
        invariant
            c@ == s@,
            n == c@.len(),
            n % 4 == 0,
            n >= 4,
            head_len == n - 4,
            h == c@.take(head_len as int),
            i <= head_len,
            i % 4 == 0,
            match groups_s(h.skip(i as int)) {
                Some(rest) => groups_s(h) == Some(out@ + rest),
                None => groups_s(h) is None,
            },
        decreases head_len - i,
    {
        let ghost g = h.skip(i as int);
        assert(g.take(4) =~= seq![c@[i as int], c@[i + 1], c@[i + 2], c@[i + 3]]);
        assert(g.skip(4) =~= h.skip(i + 4));
        let d0 = digit(c[i]);
        let d1 = digit(c[i + 1]);
        let d2 = digit(c[i + 2]);
        let d3 = digit(c[i + 3]);
        match (d0, d1, d2, d3) {
            (Some(a), Some(b), Some(cc), Some(d)) => {
                let x0 = join0(a, b);
                let x1 = join1(b, cc);
                let x2 = join2(cc, d);
                let ghost before = out@;
                out.push(x0);
                out.push(x1);
                out.push(x2);
                assert(out@ =~= before + seq![x0, x1, x2]);
                proof {
                    match groups_s(h.skip(i + 4)) {
                        Some(rest) => {
                            assert(before + (seq![x0, x1, x2] + rest) =~= out@ + rest);
                        },
                        None => {},
                    }
                }
            },
            _ => {
                return None;
            },
        }
        i = i + 4;
    }
    assert(h.skip(head_len as int) =~= Seq::<char>::empty());
    assert(out@ + Seq::<u8>::empty() =~= out@);
    let ghost last = c@.skip(head_len as int);
    assert(last =~= seq![c@[n - 4], c@[n - 3], c@[n - 2], c@[n - 1]]);
    let ghost before = out@;
    let d0 = digit(c[n - 4]);
    let d1 = digit(c[n - 3]);
    if c[n - 1] != '=' {
        let d2 = digit(c[n - 2]);
        let d3 = digit(c[n - 1]);
        match (d0, d1, d2, d3) {
            (Some(a), Some(b), Some(cc), Some(d)) => {
                let x0 = join0(a, b);
                let x1 = join1(b, cc);
                let x2 = join2(cc, d);
                out.push(x0);
                out.push(x1);
                out.push(x2);
                assert(out@ =~= before + seq![x0, x1, x2]);
            },
            _ => {
                return None;
            },
        }
    } else if c[n - 2] != '=' {
        let d2 = digit(c[n - 2]);
        match (d0, d1, d2) {
            (Some(a), Some(b), Some(cc)) => {
                let x0 = join0(a, b);
                let x1 = join1(b, cc);
                out.push(x0);
                out.push(x1);
                assert(out@ =~= before + seq![x0, x1]);
            },
            _ => {
                return None;
            },
        }
    } else {
        match (d0, d1) {
            (Some(a), Some(b)) => {
                let x0 = join0(a, b);
                out.push(x0);
                assert(out@ =~= before + seq![x0]);
            },
            _ => {
                return None;
            },
        }
    }
    Some(out)
}

} // verus!
