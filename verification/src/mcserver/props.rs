//! `server.properties` editing: a property is forced to a value by
//! rewriting every line that sets it, or appending one line when none does.
use crate::text::{
    chars_of, decimal, is_ws, is_ws_char, u64_to_string, lemma_split_nonempty, lemma_trim_start_skip, pieces_view,
    split_chars, split_s, starts_with, starts_with_s, string_of, trim_start_s,
};
use vstd::prelude::*;

verus! {

// ---------------------------------------------------------------------------
// Lines
// ---------------------------------------------------------------------------

/// A line without its carriage return, when it has one.
pub open spec fn strip_cr(l: Seq<char>) -> Seq<char> {
    if l.len() > 0 && l.last() == '\r' {
        l.drop_last()
    } else {
        l
    }
}

/// What `str::lines` yields: the text split at `\n`, no empty last line
/// after a final `\n`, and `\r\n` endings taken whole.
pub open spec fn lines_s(s: Seq<char>) -> Seq<Seq<char>> {
    let ps = split_s(s, '\n');
    let n: int = if s.len() == 0 {
        0
    } else if s.last() == '\n' {
        ps.len() - 1
    } else {
        ps.len() as int
    };
    Seq::new(n as nat, |i: int| if i < ps.len() - 1 { strip_cr(ps[i]) } else { ps[i] })
}

/// Each line followed by `\n`.
pub open spec fn join_lines(ls: Seq<Seq<char>>) -> Seq<char>
    decreases ls.len(),
{
    if ls.len() == 0 {
        Seq::empty()
    } else {
        join_lines(ls.drop_last()) + ls.last() + seq!['\n']
    }
}

pub open spec fn no_newline(l: Seq<char>) -> bool {
    forall|j: int| 0 <= j < l.len() ==> l[j] != '\n'
}

// ---------------------------------------------------------------------------
// Properties
// ---------------------------------------------------------------------------

pub open spec fn prop_line(key: Seq<char>, value: Seq<char>) -> Seq<char> {
    key + seq!['='] + value
}

/// Whether a line sets `key`: after leading blanks it starts with `key=`.
pub open spec fn sets_key(l: Seq<char>, key: Seq<char>) -> bool {
    starts_with_s(trim_start_s(l), key + seq!['='])
}

pub open spec fn patched_line(l: Seq<char>, key: Seq<char>, value: Seq<char>) -> Seq<char> {
    if sets_key(l, key) {
        prop_line(key, value)
    } else {
        l
    }
}

/// The lines after the patch: lines setting `key` become `key=value`; if
/// there was none, `key=value` is added at the end.
pub open spec fn patched_lines(ls: Seq<Seq<char>>, key: Seq<char>, value: Seq<char>) -> Seq<
    Seq<char>,
> {
    let m = Seq::new(ls.len(), |i: int| patched_line(ls[i], key, value));
    if exists|i: int| 0 <= i < ls.len() && sets_key(#[trigger] ls[i], key) {
        m
    } else {
        m.push(prop_line(key, value))
    }
}

/// The text `patch_property` writes.
pub open spec fn patch_s(body: Seq<char>, key: Seq<char>, value: Seq<char>) -> Seq<char> {
    join_lines(patched_lines(lines_s(body), key, value))
}

fn append(out: &mut Vec<char>, s: &[char])
    ensures
        final(out)@ == old(out)@ + s@,
{
    let mut i: usize = 0;
    let ghost o = out@;
    while i < s.len()
        invariant
            i <= s@.len(),
            out@ == o + s@.take(i as int),
        decreases s@.len() - i,
    {
        out.push(s[i]);
        i += 1;
        assert(out@ =~= o + s@.take(i as int));
    }
    assert(s@.take(s@.len() as int) =~= s@);
}

fn line_sets_key(l: &[char], prefix: &[char], Ghost(key): Ghost<Seq<char>>) -> (r: bool)
    requires
        prefix@ == key + seq!['='],
    ensures
        r == sets_key(l@, key),
{
    let mut i: usize = 0;
    while i < l.len() && is_ws_char(l[i])
        invariant
            i <= l@.len(),
            forall|k: int| 0 <= k < i ==> is_ws(#[trigger] l@[k]),
        decreases l@.len() - i,
    {
        i += 1;
    }
    proof {
        lemma_trim_start_skip(l@, i as int);
        let t = l@.skip(i as int);
        assert(!(t.len() > 0 && is_ws(t[0])));
        assert(trim_start_s(t) == t);
    }
    let t = crate::text::slice_skip(l, i);
    starts_with(t.as_slice(), prefix)
}

fn line_at(pieces: &Vec<Vec<char>>, i: usize) -> (r: Vec<char>)
    requires
        i < pieces@.len(),
    ensures
        r@ == if i < pieces@.len() - 1 {
            strip_cr(pieces@[i as int]@)
        } else {
            pieces@[i as int]@
        },
{
    let p = &pieces[i];
    if i < pieces.len() - 1 && p.len() > 0 && p[p.len() - 1] == '\r' {
        crate::text::slice_to_vec_range(p.as_slice(), 0, p.len() - 1)
    } else {
        let r = crate::text::slice_skip(p.as_slice(), 0);
        assert(r@ =~= p@);
        r
    }
}

/// `str::lines`: the lines of a text, as strings.
pub fn lines_of(body: &str) -> (r: Vec<String>)
    ensures
        r@.len() == lines_s(body@).len(),
        forall|i: int| 0 <= i < r@.len() ==> (#[trigger] r@[i])@ == lines_s(body@)[i],
{
    let b = chars_of(body);
    let pieces = split_chars(b.as_slice(), '\n');
    let np = pieces.len();
    let n: usize = if b.len() == 0 {
        0
    } else if b[b.len() - 1] == '\n' {
        np - 1
    } else {
        np
    };
    let ghost ls = lines_s(body@);
    let mut out: Vec<String> = Vec::new();
    let mut i: usize = 0;
    while i < n
        invariant
            i <= n,
            n == ls.len(),
            np == pieces@.len(),
            ls == lines_s(body@),
            pieces_view(pieces@) == split_s(body@, '\n'),
            ls.len() <= np,
            out@.len() == i,
            forall|k: int| 0 <= k < i ==> (#[trigger] out@[k])@ == ls[k],
        decreases n - i,
    {
        let line = line_at(&pieces, i);
        assert(pieces@[i as int]@ == pieces_view(pieces@)[i as int]);
        out.push(string_of(line.as_slice()));
        i += 1;
    }
    out
}

/// Sets `key=value` in a properties text: every line that sets `key` is
/// replaced, or the line is appended; every line then ends with `\n`.
pub fn patch_property(body: &str, key: &str, value: &str) -> (r: String)
    ensures
        r@ == patch_s(body@, key@, value@),
{
    let b = chars_of(body);
    let pieces = split_chars(b.as_slice(), '\n');
    let np = pieces.len();
    let n: usize = if b.len() == 0 {
        0
    } else if b[b.len() - 1] == '\n' {
        np - 1
    } else {
        np
    };
    let ghost ls = lines_s(body@);
    let ghost ps = split_s(body@, '\n');
    proof {
        assert(pieces_view(pieces@) == ps);
        assert(ls.len() == n);
    }
    let mut prefix = chars_of(key);
    prefix.push('=');
    let mut kv = chars_of(key);
    kv.push('=');
    let vc = chars_of(value);
    append(&mut kv, vc.as_slice());
    proof {
        assert(kv@ =~= prop_line(key@, value@));
    }
    let ghost f = |j: int| patched_line(ls[j], key@, value@);
    let mut out: Vec<char> = Vec::new();
    let mut found = false;
    let mut i: usize = 0;
    assert(Seq::new(0, f) =~= Seq::<Seq<char>>::empty());
    while i < n
        invariant
            i <= n,
            n == ls.len(),
            np == pieces@.len(),
            ls == lines_s(body@),
            pieces_view(pieces@) == split_s(body@, '\n'),
            ls.len() <= np,
            prefix@ == key@ + seq!['='],
            kv@ == prop_line(key@, value@),
            f == (|j: int| patched_line(ls[j], key@, value@)),
            out@ == join_lines(Seq::new(i as nat, f)),
            found == exists|j: int| 0 <= j < i && sets_key(#[trigger] ls[j], key@),
        decreases n - i,
    {
        let line = line_at(&pieces, i);
        assert(pieces@[i as int]@ == pieces_view(pieces@)[i as int]);
        assert(line@ == ls[i as int]);
        let hit = line_sets_key(line.as_slice(), prefix.as_slice(), Ghost(key@));
        if hit {
            append(&mut out, kv.as_slice());
            found = true;
        } else {
            append(&mut out, line.as_slice());
        }
        out.push('\n');
        proof {
            assert(Seq::new((i + 1) as nat, f).drop_last() =~= Seq::new(i as nat, f));
            assert(Seq::new((i + 1) as nat, f).last() == f(i as int));
        }
        i += 1;
    }
    proof {
        assert(Seq::new(n as nat, f) =~= Seq::new(ls.len(), |j: int| patched_line(ls[j], key@, value@)));
    }
    if !found {
        append(&mut out, kv.as_slice());
        out.push('\n');
        proof {
            let m = Seq::new(ls.len(), |j: int| patched_line(ls[j], key@, value@));
            assert(m.push(prop_line(key@, value@)).drop_last() =~= m);
        }
    }
    string_of(out.as_slice())
}

// ---------------------------------------------------------------------------
// Reading the patched text back
// ---------------------------------------------------------------------------

proof fn lemma_split_pieces_no_sep(s: Seq<char>, sep: char)
    ensures
        forall|i: int, j: int|
            0 <= i < split_s(s, sep).len() && 0 <= j < split_s(s, sep)[i].len() ==> split_s(
                s,
                sep,
            )[i][j] != sep,
    decreases s.len(),
{
    if s.len() > 0 {
        lemma_split_pieces_no_sep(s.drop_last(), sep);
        lemma_split_nonempty(s.drop_last(), sep);
    }
}

pub proof fn lemma_split_append_plain(a: Seq<char>, b: Seq<char>, sep: char)
    requires
        forall|j: int| 0 <= j < b.len() ==> b[j] != sep,
    ensures
        split_s(a + b, sep) == split_s(a, sep).update(
            split_s(a, sep).len() - 1,
            split_s(a, sep).last() + b,
        ),
    decreases b.len(),
{
    lemma_split_nonempty(a, sep);
    if b.len() == 0 {
        assert(a + b =~= a);
        assert(split_s(a, sep).last() + b =~= split_s(a, sep).last());
        assert(split_s(a, sep).update(split_s(a, sep).len() - 1, split_s(a, sep).last())
            =~= split_s(a, sep));
    } else {
        let b0 = b.drop_last();
        lemma_split_append_plain(a, b0, sep);
        assert((a + b).drop_last() =~= a + b0);
        assert((a + b).last() == b.last());
        assert(split_s(a, sep).last() + b0 + seq![b.last()] =~= split_s(a, sep).last() + b);
        assert(split_s(a, sep).last() + b0 + seq![b.last()] =~= (split_s(a, sep).last() + b0).push(
            b.last(),
        ));
        assert(split_s(a + b, sep) =~= split_s(a, sep).update(
            split_s(a, sep).len() - 1,
            split_s(a, sep).last() + b,
        ));
    }
}

proof fn lemma_split_join(ls: Seq<Seq<char>>)
    requires
        forall|i: int| 0 <= i < ls.len() ==> no_newline(#[trigger] ls[i]),
    ensures
        split_s(join_lines(ls), '\n') == ls.push(Seq::<char>::empty()),
    decreases ls.len(),
{
    if ls.len() == 0 {
        assert(split_s(Seq::<char>::empty(), '\n') =~= seq![Seq::<char>::empty()]);
    } else {
        let p = ls.drop_last();
        assert forall|i: int| 0 <= i < p.len() implies no_newline(#[trigger] p[i]) by {
            assert(p[i] == ls[i]);
        }
        lemma_split_join(p);
        let x = join_lines(p);
        let y = x + ls.last();
        assert(no_newline(ls.last()));
        lemma_split_append_plain(x, ls.last(), '\n');
        assert(split_s(y, '\n') =~= p.push(ls.last()));
        assert(p.push(ls.last()) =~= ls);
        let z = y + seq!['\n'];
        assert(z.drop_last() =~= y);
        assert(z.last() == '\n');
        assert(join_lines(ls) == z);
    }
}

proof fn lemma_lines_of_join(ls: Seq<Seq<char>>)
    requires
        ls.len() > 0,
        forall|i: int| 0 <= i < ls.len() ==> no_newline(#[trigger] ls[i]),
    ensures
        lines_s(join_lines(ls)) == Seq::new(ls.len(), |i: int| strip_cr(ls[i])),
{
    lemma_split_join(ls);
    let t = join_lines(ls);
    assert(t.len() > 0 && t.last() == '\n') by {
        assert(t == join_lines(ls.drop_last()) + ls.last() + seq!['\n']);
    }
    assert(lines_s(t) =~= Seq::new(ls.len(), |i: int| strip_cr(ls[i])));
}

proof fn lemma_lines_no_newline(s: Seq<char>)
    ensures
        forall|i: int| 0 <= i < lines_s(s).len() ==> no_newline(#[trigger] lines_s(s)[i]),
{
    lemma_split_pieces_no_sep(s, '\n');
    lemma_split_nonempty(s, '\n');
    let ps = split_s(s, '\n');
    assert forall|i: int| 0 <= i < lines_s(s).len() implies no_newline(#[trigger] lines_s(s)[i]) by {
        assert forall|j: int| 0 <= j < lines_s(s)[i].len() implies lines_s(s)[i][j] != '\n' by {
            assert(lines_s(s)[i][j] == ps[i][j]);
        }
    }
}

proof fn lemma_trim_start_drop_last(l: Seq<char>)
    requires
        l.len() > 0,
    ensures
        trim_start_s(l.drop_last()).len() == 0 || (trim_start_s(l).len() > 0 && trim_start_s(
            l.drop_last(),
        ) == trim_start_s(l).drop_last()),
    decreases l.len(),
{
    if l.len() == 1 {
        assert(l.drop_last().len() == 0);
    } else if is_ws(l[0]) {
        lemma_trim_start_drop_last(l.drop_first());
        assert(l.drop_last().drop_first() =~= l.drop_first().drop_last());
    } else {
        assert(l.drop_last()[0] == l[0]);
    }
}

proof fn lemma_sets_key_strip(l: Seq<char>, key: Seq<char>)
    requires
        sets_key(strip_cr(l), key),
    ensures
        sets_key(l, key),
{
    if l.len() > 0 && l.last() == '\r' {
        let p = key + seq!['='];
        lemma_trim_start_drop_last(l);
        let tx = trim_start_s(l.drop_last());
        let tl = trim_start_s(l);
        assert(tx.len() >= p.len());
        assert(tx == tl.drop_last());
        assert(tl.subrange(0, p.len() as int) =~= tx.subrange(0, p.len() as int));
    }
}

/// After `patch_property(body, key, value)`, reading the text line by line
/// finds `key=value`, every line that sets `key` sets it to `value`, and the
/// other lines keep their places.  (The key must not start with a blank and
/// neither part may hold a line break; the value must not end with `\r`.)
pub proof fn lemma_patch_sets_property(body: Seq<char>, key: Seq<char>, value: Seq<char>)
    requires
        no_newline(key),
        no_newline(value),
        !(key.len() > 0 && is_ws(key[0])),
        !(value.len() > 0 && value.last() == '\r'),
    ensures
        exists|i: int|
            0 <= i < lines_s(patch_s(body, key, value)).len() && #[trigger] lines_s(
                patch_s(body, key, value),
            )[i] == prop_line(key, value),
        forall|i: int|
            0 <= i < lines_s(patch_s(body, key, value)).len() && sets_key(
                #[trigger] lines_s(patch_s(body, key, value))[i],
                key,
            ) ==> lines_s(patch_s(body, key, value))[i] == prop_line(key, value),
        forall|i: int|
            0 <= i < lines_s(body).len() && !sets_key(#[trigger] lines_s(body)[i], key) ==> lines_s(
                patch_s(body, key, value),
            )[i] == strip_cr(lines_s(body)[i]),
        lines_s(body).len() <= lines_s(patch_s(body, key, value)).len() <= lines_s(body).len() + 1,
{
    let ls = lines_s(body);
    let pl = patched_lines(ls, key, value);
    let kv = prop_line(key, value);
    lemma_lines_no_newline(body);
    assert(no_newline(kv)) by {
        assert forall|j: int| 0 <= j < kv.len() implies kv[j] != '\n' by {
            if j < key.len() {
                assert(kv[j] == key[j]);
            } else if j > key.len() {
                assert(kv[j] == value[j - key.len() - 1]);
            }
        }
    }
    assert(strip_cr(kv) == kv) by {
        if value.len() == 0 {
            assert(kv.last() == '=');
        } else {
            assert(kv.last() == value.last());
        }
    }
    assert forall|i: int| 0 <= i < pl.len() implies no_newline(#[trigger] pl[i]) by {
        if i < ls.len() {
            assert(pl[i] == patched_line(ls[i], key, value));
        }
    }
    let has = exists|i: int| 0 <= i < ls.len() && sets_key(#[trigger] ls[i], key);
    assert(pl.len() > 0) by {
        if has {
            let i = choose|i: int| 0 <= i < ls.len() && sets_key(#[trigger] ls[i], key);
            assert(ls.len() > 0);
        }
    }
    lemma_lines_of_join(pl);
    let out = lines_s(patch_s(body, key, value));
    assert(out == Seq::new(pl.len(), |i: int| strip_cr(pl[i])));
    if has {
        let i = choose|i: int| 0 <= i < ls.len() && sets_key(#[trigger] ls[i], key);
        assert(out[i] == kv);
    } else {
        assert(out[pl.len() - 1] == kv);
    }
    assert forall|i: int| 0 <= i < out.len() && sets_key(#[trigger] out[i], key) implies out[i] == kv by {
        if i < ls.len() {
            assert(pl[i] == patched_line(ls[i], key, value));
            if !sets_key(ls[i], key) {
                assert(out[i] == strip_cr(ls[i]));
                lemma_sets_key_strip(ls[i], key);
            }
        }
    }
    assert forall|i: int| 0 <= i < ls.len() && !sets_key(#[trigger] ls[i], key) implies out[i]
        == strip_cr(ls[i]) by {
        assert(pl[i] == ls[i]);
    }
}

/// Patching twice with the same key and value changes nothing more than
/// patching once.  The key must not start with a blank and neither part may
/// hold a line break.  Besides, no line that the patch keeps may still end
/// in `\r` once `str::lines` has taken its line ending (body `"a\r\r\n"`
/// keeps the line `"a\r"`, which reading the patched text back strips).
pub proof fn lemma_patch_idempotent(body: Seq<char>, key: Seq<char>, value: Seq<char>)
    requires
        no_newline(key),
        no_newline(value),
        !(key.len() > 0 && is_ws(key[0])),
        forall|i: int|
            0 <= i < lines_s(body).len() && !sets_key(#[trigger] lines_s(body)[i], key) ==> strip_cr(
                lines_s(body)[i],
            ) == lines_s(body)[i],
    ensures
        patch_s(patch_s(body, key, value), key, value) == patch_s(body, key, value),
{
    let ls = lines_s(body);
    let pl = patched_lines(ls, key, value);
    let kv = prop_line(key, value);
    let pre = key + seq!['='];
    lemma_lines_no_newline(body);
    assert(no_newline(kv)) by {
        assert forall|j: int| 0 <= j < kv.len() implies kv[j] != '\n' by {
            if j < key.len() {
                assert(kv[j] == key[j]);
            } else if j > key.len() {
                assert(kv[j] == value[j - key.len() - 1]);
            }
        }
    }
    let kc = strip_cr(kv);
    assert(sets_key(kc, key)) by {
        assert(kc.len() >= pre.len());
        assert(kc.len() > 0);
        if key.len() > 0 {
            assert(kc[0] == key[0]);
        } else {
            assert(kc[0] == '=');
        }
        assert(trim_start_s(kc) == kc);
        assert(kc.subrange(0, pre.len() as int) =~= pre);
    }
    let has = exists|i: int| 0 <= i < ls.len() && sets_key(#[trigger] ls[i], key);
    assert forall|i: int| 0 <= i < pl.len() implies no_newline(#[trigger] pl[i]) && patched_line(
        strip_cr(pl[i]),
        key,
        value,
    ) == pl[i] by {
        if i < ls.len() {
            assert(pl[i] == patched_line(ls[i], key, value));
        }
    }
    assert(pl.len() > 0) by {
        if has {
            let i = choose|i: int| 0 <= i < ls.len() && sets_key(#[trigger] ls[i], key);
            assert(ls.len() > 0);
        }
    }
    lemma_lines_of_join(pl);
    let p = patch_s(body, key, value);
    let q = lines_s(p);
    assert(q == Seq::new(pl.len(), |i: int| strip_cr(pl[i])));
    let j = if has {
        choose|i: int| 0 <= i < ls.len() && sets_key(#[trigger] ls[i], key)
    } else {
        pl.len() - 1
    };
    assert(pl[j] == kv);
    assert(q[j] == kc);
    assert(sets_key(q[j], key));
    assert forall|i: int| 0 <= i < q.len() implies #[trigger] patched_line(q[i], key, value) == pl[i] by {
        assert(q[i] == strip_cr(pl[i]));
    }
    assert(patched_lines(q, key, value) =~= pl);
}

} // verus!

verus! {

/// The properties text written before every start: offline mode, and the
/// ports and RCON settings when given.
pub open spec fn initial_props_s(
    body: Seq<char>,
    server_port: Option<u16>,
    rcon_port: Option<u16>,
    rcon_password: Option<Seq<char>>,
) -> Seq<char> {
    let a = patch_s(body, "online-mode"@, "false"@);
    let b = match server_port {
        Some(p) => patch_s(a, "server-port"@, decimal(p as nat)),
        None => a,
    };
    let c = match rcon_port {
        Some(p) => patch_s(
            patch_s(patch_s(b, "enable-rcon"@, "true"@), "rcon.port"@, decimal(p as nat)),
            "broadcast-rcon-to-ops"@,
            "false"@,
        ),
        None => b,
    };
    match rcon_password {
        Some(pw) => patch_s(c, "rcon.password"@, pw),
        None => c,
    }
}

/// The `server.properties` text to write, given what the file held (empty
/// when it did not exist or could not be read).  Online mode is always
/// forced off: this is a plugin-debugging server.
pub fn initial_properties(
    body: &str,
    server_port: Option<u16>,
    rcon_port: Option<u16>,
    rcon_password: Option<&str>,
) -> (r: String)
    ensures
        r@ == initial_props_s(
            body@,
            server_port,
            rcon_port,
            match rcon_password {
                Some(p) => Some(p@),
                None => None,
            },
        ),
{
    let mut text = patch_property(body, "online-mode", "false");
    match server_port {
        Some(p) => {
            let ps = u64_to_string(p as u64);
            text = patch_property(text.as_str(), "server-port", ps.as_str());
        },
        None => {},
    }
    match rcon_port {
        Some(p) => {
            text = patch_property(text.as_str(), "enable-rcon", "true");
            let ps = u64_to_string(p as u64);
            text = patch_property(text.as_str(), "rcon.port", ps.as_str());
            text = patch_property(text.as_str(), "broadcast-rcon-to-ops", "false");
        },
        None => {},
    }
    match rcon_password {
        Some(pw) => {
            text = patch_property(text.as_str(), "rcon.password", pw);
        },
        None => {},
    }
    text
}

/// The EULA file written when none exists: the tool is only for people who
/// accepted Mojang's EULA.
pub fn eula_text() -> (r: &'static str)
    ensures
        r@ == "eula=true\n"@,
{
    "eula=true\n"
}

} // verus!
