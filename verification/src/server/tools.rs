//! The rules of the individual MCP tools: argument checks, defaults, path
//! choices, line ranges and the texts they answer with.  The file system,
//! the server and the network are reached by the caller.
use crate::config::McConfig;
use crate::mcserver::instance::StartOptions;
use crate::mcserver::process::LogLine;
use crate::mcserver::props::{lemma_split_append_plain, lines_of, lines_s, no_newline, strip_cr};
use crate::rcon::MAX_PAYLOAD;
use crate::b64::{base64_decode, base64_decode_s};
use crate::server::mcp::{DispatchError, INVALID_PARAMS, TOOL_ERROR};
use crate::server::sandbox::{jar_filename_s, sandbox_message, validate_jar_filename};
use crate::text::{
    chars_of, concat, decimal, ends_with, ends_with_s, find_chars, lower_chars, lower_s, owned,
    slice_skip, slice_to_vec_range, split_chars, split_s, starts_with, starts_with_s, str_eq,
    string_of, trim, trim_end_char, trim_end_char_s, trim_s, u64_to_string, utf8_len,
    utf8_len_of,
};
use vstd::prelude::*;

verus! {

fn cat(a: String, b: &str) -> (r: String)
    ensures
        r@ == a@ + b@,
{
    concat(a.as_str(), b)
}

// ---------------------------------------------------------------------------
// Arguments
// ---------------------------------------------------------------------------

pub open spec fn missing_field_text(key: Seq<char>) -> Seq<char> {
    "缺少字段或类型不对："@ + key
}

/// The error for a required string argument that is missing or not a
/// string.
pub fn missing_field(key: &str) -> (r: DispatchError)
    ensures
        r.code == INVALID_PARAMS,
        r.message@ == missing_field_text(key@),
{
    DispatchError::invalid_params(concat("缺少字段或类型不对：", key))
}

/// `mc_env_install_java`'s `major`: required, an integer from 8 to 26.
pub fn install_java_major(major: Option<u64>) -> (r: Result<u32, DispatchError>)
    ensures
        match major {
            None => r matches Err(e) && e.code == INVALID_PARAMS && e.message@ == "major 必填且为整数"@,
            Some(m) => if 8 <= m <= 26 {
                r == Ok::<u32, DispatchError>(m as u32)
            } else {
                r matches Err(e) && e.code == INVALID_PARAMS && e.message@ == "major 取值必须在 [8, 26]"@
            },
        },
{
    match major {
        None => Err(DispatchError::invalid_params(owned("major 必填且为整数"))),
        Some(m) => {
            if !(8 <= m && m <= 26) {
                return Err(DispatchError::invalid_params(owned("major 取值必须在 [8, 26]")));
            }
            Ok(m as u32)
        },
    }
}

/// How long a start waits for the server to be ready when the caller names
/// no limit (the tools' schema default).
pub const DEFAULT_WAIT_READY_SECS: u64 = 120;

/// The start options of `mc_server_start`/`mc_server_restart`: the version
/// and heap given, else the configured ones; a readiness limit of 120 s
/// unless given; the configured game port (forced into `server.properties`
/// on every start), RCON port, password (when set) and Java (when set).
pub fn start_options(
    mc_version: Option<&str>,
    heap_mb: Option<u64>,
    wait_ready_secs: Option<u64>,
    mc: &McConfig,
) -> (r: StartOptions)
    ensures
        r.mc_version@ == match mc_version {
            Some(v) => v@,
            None => mc.default_version@,
        },
        r.heap_mb == match heap_mb {
            Some(h) => h as u32,
            None => mc.heap_mb,
        },
        r.server_port == Some(mc.server_port),
        r.rcon_port == Some(mc.rcon_port),
        mc.rcon_password@.len() == 0 ==> r.rcon_password is None,
        mc.rcon_password@.len() > 0 ==> (r.rcon_password matches Some(p) && p@ == mc.rcon_password@),
        r.wait_ready_secs == match wait_ready_secs {
            Some(w) => w,
            None => DEFAULT_WAIT_READY_SECS,
        },
        trim_s(mc.java_path@).len() == 0 ==> r.java_path is None,
        trim_s(mc.java_path@).len() > 0 ==> (r.java_path matches Some(p) && p@ == trim_s(
            mc.java_path@,
        )),
{
    let version = match mc_version {
        Some(v) => owned(v),
        None => mc.default_version.clone(),
    };
    let heap: u32 = match heap_mb {
        Some(h) => h as u32,
        None => mc.heap_mb,
    };
    let pw = if mc.rcon_password.as_str().is_empty() {
        None
    } else {
        Some(mc.rcon_password.clone())
    };
    let jp = trim(mc.java_path.as_str());
    let java = if jp.as_str().is_empty() {
        None
    } else {
        Some(jp)
    };
    StartOptions {
        mc_version: version,
        heap_mb: heap,
        server_port: Some(mc.server_port),
        rcon_port: Some(mc.rcon_port),
        rcon_password: pw,
        wait_ready_secs: match wait_ready_secs {
            Some(w) => w,
            None => DEFAULT_WAIT_READY_SECS,
        },
        java_path: java,
    }
}

/// A console command: trimmed, and not empty.
pub fn console_command(raw: &str) -> (r: Result<String, DispatchError>)
    ensures
        trim_s(raw@).len() == 0 ==> (r matches Err(e) && e.code == INVALID_PARAMS && e.message@
            == "command 不能为空"@),
        trim_s(raw@).len() > 0 ==> (r matches Ok(c) && c@ == trim_s(raw@)),
{
    let t = trim(raw);
    if t.as_str().is_empty() {
        return Err(DispatchError::invalid_params(owned("command 不能为空")));
    }
    Ok(t)
}

pub open spec fn rcon_too_long_text() -> Seq<char> {
    "命令超过 1400 字节上限"@
}

/// An RCON command: a console command of at most `MAX_PAYLOAD` bytes.
pub fn rcon_command(raw: &str) -> (r: Result<String, DispatchError>)
    ensures
        trim_s(raw@).len() == 0 ==> (r matches Err(e) && e.code == INVALID_PARAMS),
        trim_s(raw@).len() > 0 && utf8_len(trim_s(raw@)) > MAX_PAYLOAD ==> (r matches Err(e) && e.code
            == INVALID_PARAMS && e.message@ == rcon_too_long_text()),
        trim_s(raw@).len() > 0 && utf8_len(trim_s(raw@)) <= MAX_PAYLOAD ==> (r matches Ok(c) && c@
            == trim_s(raw@)),
{
    let c = console_command(raw)?;
    let n = utf8_len_of(chars_of(c.as_str()).as_slice());
    if n > MAX_PAYLOAD as u128 {
        return Err(DispatchError::invalid_params(owned("命令超过 1400 字节上限")));
    }
    Ok(c)
}

// ---------------------------------------------------------------------------
// Addresses
// ---------------------------------------------------------------------------

/// The host of an `http` or `https` URL: what lies between the scheme and
/// the first `/` or `:`; `None` for other URLs or an empty host.
pub open spec fn extract_host_s(url: Seq<char>) -> Option<Seq<char>> {
    let rest = if starts_with_s(url, "https://"@) {
        Some(url.skip(8))
    } else if starts_with_s(url, "http://"@) {
        Some(url.skip(7))
    } else {
        None
    };
    match rest {
        None => None,
        Some(r) => {
            let h = split_s(split_s(r, '/')[0], ':')[0];
            if h.len() == 0 {
                None
            } else {
                Some(h)
            }
        },
    }
}

pub fn extract_host(url: &str) -> (r: Option<String>)
    ensures
        match extract_host_s(url@) {
            Some(h) => r matches Some(x) && x@ == h,
            None => r is None,
        },
{
    let c = chars_of(url);
    let https = chars_of("https://");
    let http = chars_of("http://");
    proof {
        reveal_strlit("https://");
        reveal_strlit("http://");
    }
    let rest = if starts_with(c.as_slice(), https.as_slice()) {
        slice_skip(c.as_slice(), 8)
    } else if starts_with(c.as_slice(), http.as_slice()) {
        slice_skip(c.as_slice(), 7)
    } else {
        return None;
    };
    let by_slash = split_chars(rest.as_slice(), '/');
    assert(by_slash@[0]@ == split_s(rest@, '/')[0]) by {
        assert(crate::text::pieces_view(by_slash@)[0] == by_slash@[0]@);
    }
    let by_colon = split_chars(by_slash[0].as_slice(), ':');
    assert(by_colon@[0]@ == split_s(by_slash@[0]@, ':')[0]) by {
        assert(crate::text::pieces_view(by_colon@)[0] == by_colon@[0]@);
    }
    if by_colon[0].len() == 0 {
        return None;
    }
    Some(string_of(by_colon[0].as_slice()))
}

/// The address players are told to connect to: the configured public host,
/// else the host (IP) part of the listen address.  The public URL is only
/// shown in the panel and plays no part.
pub open spec fn public_host_s(public_host: Seq<char>, listen: Seq<char>) -> Seq<char> {
    if public_host.len() > 0 {
        public_host
    } else {
        split_s(listen, ':')[0]
    }
}

pub fn public_host(configured: &str, listen: &str) -> (r: String)
    ensures
        r@ == public_host_s(configured@, listen@),
{
    if !configured.is_empty() {
        return owned(configured);
    }
    let parts = split_chars(chars_of(listen).as_slice(), ':');
    assert(parts@[0]@ == split_s(listen@, ':')[0]) by {
        assert(crate::text::pieces_view(parts@)[0] == parts@[0]@);
    }
    string_of(parts[0].as_slice())
}

/// Where plugins are uploaded: the public URL without trailing `/`, or
/// `http://` and the listen address, then `/api/plugins/upload`.
pub open spec fn upload_url_s(public_url: Seq<char>, listen: Seq<char>) -> Seq<char> {
    (if public_url.len() > 0 {
        trim_end_char_s(public_url, '/')
    } else {
        "http://"@ + listen
    }) + "/api/plugins/upload"@
}

pub fn plugin_upload_url(public_url: &str, listen: &str) -> (r: String)
    ensures
        r@ == upload_url_s(public_url@, listen@),
{
    let base = if !public_url.is_empty() {
        string_of(trim_end_char(chars_of(public_url).as_slice(), '/').as_slice())
    } else {
        concat("http://", listen)
    };
    cat(base, "/api/plugins/upload")
}

// ---------------------------------------------------------------------------
// Logs
// ---------------------------------------------------------------------------

/// How many log lines `mc_server_logs` returns: 200 unless asked, at most
/// 5000.
pub fn logs_tail(tail: Option<u64>) -> (r: usize)
    ensures
        r == match tail {
            Some(t) => if (t as usize) < 5000 {
                t as usize
            } else {
                5000usize
            },
            None => 200usize,
        },
{
    let t: usize = match tail {
        Some(t) => t as usize,
        None => 200,
    };
    if t < 5000 {
        t
    } else {
        5000
    }
}

pub open spec fn log_line_text(l: LogLine) -> Seq<char> {
    if l.stream@ == "stderr"@ {
        "[err] "@ + l.text@
    } else {
        l.text@
    }
}

/// Lines joined with `\n`.
pub open spec fn join_nl(ls: Seq<Seq<char>>) -> Seq<char>
    decreases ls.len(),
{
    if ls.len() == 0 {
        Seq::empty()
    } else if ls.len() == 1 {
        ls[0]
    } else {
        join_nl(ls.drop_last()) + seq!['\n'] + ls.last()
    }
}

pub open spec fn logs_text_s(lines: Seq<LogLine>) -> Seq<char> {
    let t = join_nl(Seq::new(lines.len(), |i: int| log_line_text(lines[i])));
    if t.len() == 0 {
        "（暂无日志）"@
    } else {
        t
    }
}

/// The log text `mc_server_logs` shows: one line per entry, standard error
/// marked `[err]`.
pub fn render_logs(lines: &[LogLine]) -> (r: String)
    ensures
        r@ == logs_text_s(lines@),
{
    let ghost parts = Seq::new(lines@.len(), |i: int| log_line_text(lines@[i]));
    let mut out: Vec<char> = Vec::new();
    let mut i: usize = 0;
    while i < lines.len()
        invariant
            i <= lines@.len(),
            parts == Seq::new(lines@.len(), |i: int| log_line_text(lines@[i])),
            out@ == join_nl(parts.take(i as int)),
        decreases lines@.len() - i,
    {
        let l = &lines[i];
        let text = if str_eq(l.stream, "stderr") {
            concat("[err] ", l.text.as_str())
        } else {
            owned(l.text.as_str())
        };
        if i > 0 {
            out.push('\n');
        }
        let mut tc = chars_of(text.as_str());
        out.append(&mut tc);
        proof {
            let t = parts.take(i + 1);
            assert(t.drop_last() =~= parts.take(i as int));
            assert(t.last() == text@);
            if i > 0 {
                assert(out@ =~= join_nl(parts.take(i as int)) + seq!['\n'] + text@);
            } else {
                assert(out@ =~= text@);
            }
        }
        i += 1;
    }
    assert(parts.take(lines@.len() as int) =~= parts);
    if out.len() == 0 {
        return owned("（暂无日志）");
    }
    string_of(out.as_slice())
}

// ---------------------------------------------------------------------------
// Plugins
// ---------------------------------------------------------------------------

/// `str::trim_end_matches` with a text pattern.
pub open spec fn trim_end_matches_s(s: Seq<char>, p: Seq<char>) -> Seq<char>
    decreases s.len(),
{
    if p.len() > 0 && ends_with_s(s, p) {
        trim_end_matches_s(s.take(s.len() - p.len()), p)
    } else {
        s
    }
}

fn trim_end_matches(s: &[char], p: &[char]) -> (r: Vec<char>)
    ensures
        r@ == trim_end_matches_s(s@, p@),
{
    let mut n: usize = s.len();
    assert(s@.take(n as int) =~= s@);
    while p.len() > 0 && n >= p.len() && ends_with(slice_to_vec_range(s, 0, n).as_slice(), p)
        invariant
            n <= s@.len(),
            trim_end_matches_s(s@, p@) == trim_end_matches_s(s@.take(n as int), p@),
        decreases n,
    {
        assert(s@.take(n as int).take(n - p@.len()) =~= s@.take(n - p@.len()));
        n = n - p.len();
    }
    slice_to_vec_range(s, 0, n)
}

pub open spec fn plugin_file_s(name: Seq<char>) -> bool {
    ends_with_s(lower_s(name), ".jar"@) || ends_with_s(lower_s(name), ".jar.disabled"@)
}

/// Files listed as plugins: `.jar` and `.jar.disabled`, in any case.
pub fn is_plugin_file(name: &str) -> (r: bool)
    ensures
        r == plugin_file_s(name@),
{
    let low = lower_chars(chars_of(name).as_slice());
    ends_with(low.as_slice(), chars_of(".jar").as_slice()) || ends_with(
        low.as_slice(),
        chars_of(".jar.disabled").as_slice(),
    )
}

/// The jar carried by `mc_plugin_upload`: its `content_b64` decoded, or an
/// invalid-parameter error when that is not base64.
pub fn upload_bytes(content_b64: &str) -> (r: Result<Vec<u8>, DispatchError>)
    ensures
        match base64_decode_s(content_b64@) {
            Some(b) => r matches Ok(v) && v@ == b,
            None => r matches Err(e) && e.code == INVALID_PARAMS && !e.scope_refused && e.message@
                == "content_b64 不是有效的 base64"@,
        },
{
    match base64_decode(content_b64) {
        Some(v) => Ok(v),
        None => Err(DispatchError::invalid_params(owned("content_b64 不是有效的 base64"))),
    }
}

/// The file `mc_plugin_remove` deletes: a valid jar name, or a disabled
/// one (its name without the `.disabled` endings must be valid).
pub open spec fn plugin_remove_name_s(filename: Seq<char>) -> Result<Seq<char>, Seq<char>> {
    match jar_filename_s(filename) {
        Ok(n) => Ok(n),
        Err(_) => match jar_filename_s(trim_end_matches_s(filename, ".disabled"@)) {
            Ok(n) => Ok(n + ".disabled"@),
            Err(e) => Err("文件名不合法: "@ + sandbox_message(e)),
        },
    }
}

pub fn plugin_remove_name(filename: &str) -> (r: Result<String, DispatchError>)
    ensures
        match plugin_remove_name_s(filename@) {
            Ok(n) => r matches Ok(x) && x@ == n,
            Err(m) => r matches Err(e) && e.code == INVALID_PARAMS && e.message@ == m,
        },
{
    match validate_jar_filename(filename) {
        Ok(n) => Ok(n),
        Err(_) => {
            let t = trim_end_matches(chars_of(filename).as_slice(), chars_of(".disabled").as_slice());
            let ts = string_of(t.as_slice());
            match validate_jar_filename(ts.as_str()) {
                Ok(n) => Ok(cat(n, ".disabled")),
                Err(e) => Err(DispatchError::invalid_params(concat("文件名不合法: ", e.message()))),
            }
        },
    }
}

// ---------------------------------------------------------------------------
// Files
// ---------------------------------------------------------------------------

/// Largest file the file tools read or write: 2 MiB.
pub const MAX_FILE_BYTES: u64 = 2097152;

pub open spec fn too_big_text() -> Seq<char> {
    "文件超过 2048 KiB 上限"@
}

/// Reading refuses files over `MAX_FILE_BYTES`.
pub fn check_read_size(len: u64) -> (r: Result<(), DispatchError>)
    ensures
        len <= MAX_FILE_BYTES ==> r is Ok,
        len > MAX_FILE_BYTES ==> (r matches Err(e) && e.code == TOOL_ERROR && !e.scope_refused && e.message@
            == too_big_text()),
{
    if len > MAX_FILE_BYTES {
        return Err(DispatchError::tool(owned("文件超过 2048 KiB 上限")));
    }
    Ok(())
}

/// Writing refuses contents over `MAX_FILE_BYTES`.
pub fn check_write_size(content: &str) -> (r: Result<(), DispatchError>)
    ensures
        utf8_len(content@) <= MAX_FILE_BYTES ==> r is Ok,
        utf8_len(content@) > MAX_FILE_BYTES ==> (r matches Err(e) && e.code == INVALID_PARAMS
            && e.message@ == "写入内容超过 2048 KiB 上限"@),
{
    if utf8_len_of(chars_of(content).as_slice()) > MAX_FILE_BYTES as u128 {
        return Err(DispatchError::invalid_params(owned("写入内容超过 2048 KiB 上限")));
    }
    Ok(())
}

/// Whether a listing path means the server's root directory.
pub fn is_root_listing(dir_path: &str) -> (r: bool)
    ensures
        r == (dir_path@ == "."@ || dir_path@.len() == 0),
{
    str_eq(dir_path, ".") || dir_path.is_empty()
}

/// The path a listed entry is reported under: its name at the root, else
/// the directory (without trailing `/`), `/` and the name.
pub fn entry_rel_path(dir_path: &str, name: &str) -> (r: String)
    ensures
        (dir_path@ == "."@ || dir_path@.len() == 0) ==> r@ == name@,
        !(dir_path@ == "."@ || dir_path@.len() == 0) ==> r@ == trim_end_char_s(dir_path@, '/')
            + "/"@ + name@,
{
    if is_root_listing(dir_path) {
        return owned(name);
    }
    let d = string_of(trim_end_char(chars_of(dir_path).as_slice(), '/').as_slice());
    let a = cat(d, "/");
    cat(a, name)
}

/// The line range `mc_files_read_lines` shows, 0-based `[s, e)`: from
/// line `start` (at least 1) to line `end` or the last.  `None` when
/// `start` is past the end.
pub open spec fn read_range_s(total: nat, start: nat, end: Option<nat>) -> Option<(nat, nat)> {
    let s: int = (if start >= 1 { start } else { 1 }) - 1;
    let e: nat = match end {
        Some(e) => if e < total { e } else { total },
        None => total,
    };
    if s >= total {
        None
    } else {
        Some((s as nat, e as nat))
    }
}

/// The range shown for `mc_files_read_lines`: it starts at line `start`
/// (a start of 0 counts as 1) and ends at the requested `end`, cut to the
/// file; with no `end`, at the last line.  There is none exactly when the
/// start lies past the last line.
pub proof fn lemma_read_range_bounds(total: nat, start: nat, end: Option<nat>)
    ensures
        read_range_s(total, start, end) is Some <==> (0 < total && start <= total),
        read_range_s(total, start, end) matches Some((s, e)) ==> s + 1 == (if start == 0 {
            1
        } else {
            start
        }) && e == (match end {
            Some(x) => if x <= total {
                x
            } else {
                total
            },
            None => total,
        }) && e <= total,
{
}

pub fn read_range(total: usize, start: usize, end: Option<usize>) -> (r: Option<(usize, usize)>)
    ensures
        match read_range_s(total as nat, start as nat, match end {
            Some(e) => Some(e as nat),
            None => None,
        }) {
            Some((s, e)) => r == Some((s as usize, e as usize)),
            None => r is None,
        },
{
    let s = (if start >= 1 {
        start
    } else {
        1
    }) - 1;
    let e = match end {
        Some(e) => if e < total {
            e
        } else {
            total
        },
        None => total,
    };
    if s >= total {
        return None;
    }
    Some((s, e))
}

/// The text of lines `[s, e)` of a text, joined with `\n`.
pub fn lines_range_text(text: &str, s: usize, e: usize) -> (r: String)
    requires
        s <= e <= lines_s(text@).len(),
    ensures
        r@ == join_nl(lines_s(text@).subrange(s as int, e as int)),
{
    let ls = lines_of(text);
    let ghost sub = lines_s(text@).subrange(s as int, e as int);
    let mut out: Vec<char> = Vec::new();
    let mut i: usize = s;
    assert(sub.take(0) =~= Seq::<Seq<char>>::empty());
    while i < e
        invariant
            s <= i <= e,
            e <= ls@.len(),
            ls@.len() == lines_s(text@).len(),
            forall|k: int| 0 <= k < ls@.len() ==> (#[trigger] ls@[k])@ == lines_s(text@)[k],
            sub == lines_s(text@).subrange(s as int, e as int),
            out@ == join_nl(sub.take(i - s)),
        decreases e - i,
    {
        if i > s {
            out.push('\n');
        }
        let mut lc = chars_of(ls[i].as_str());
        out.append(&mut lc);
        proof {
            let t = sub.take(i - s + 1);
            assert(t.drop_last() =~= sub.take(i - s));
            assert(t.last() == ls@[i as int]@);
            if i > s {
                assert(out@ =~= join_nl(sub.take(i - s)) + seq!['\n'] + ls@[i as int]@);
            } else {
                assert(out@ =~= ls@[i as int]@);
            }
        }
        i += 1;
    }
    assert(sub.take(e - s) =~= sub);
    string_of(out.as_slice())
}

/// The lines after `mc_files_write_lines`: lines `[s, e)` replaced by the
/// new content's lines, where `s` is `start - 1` and `e` is `end`, both
/// kept within the file.
pub open spec fn splice_s(orig: Seq<Seq<char>>, start: nat, end: nat, new_lines: Seq<Seq<char>>) -> Option<
    Seq<Seq<char>>,
> {
    let total = orig.len();
    let s0: int = (if start >= 1 { start } else { 1 }) - 1;
    let s: int = if s0 < total { s0 } else { total as int };
    let e: int = if end < total { end as int } else { total as int };
    if s > e {
        None
    } else {
        Some(orig.take(s as int) + new_lines + orig.skip(e as int))
    }
}

/// What `mc_files_write_lines` does to a range inside the file: with
/// `1 <= start <= end <= ` the number of lines, the result is the first
/// `start - 1` lines, then every new line, then the lines after line `end`,
/// each in order; nothing else is kept or added.
pub proof fn lemma_splice_replaces_range(
    orig: Seq<Seq<char>>,
    start: nat,
    end: nat,
    new_lines: Seq<Seq<char>>,
)
    requires
        1 <= start <= end <= orig.len(),
    ensures
        splice_s(orig, start, end, new_lines) matches Some(r) && r.len() == (start - 1) + new_lines.len()
            + (orig.len() - end) && (forall|i: int| 0 <= i < start - 1 ==> #[trigger] r[i] == orig[i])
            && (forall|j: int|
            0 <= j < new_lines.len() ==> #[trigger] r[start - 1 + j] == new_lines[j]) && (forall|k: int|
            end <= k < orig.len() ==> #[trigger] r[start - 1 + new_lines.len() + (k - end)] == orig[k]),
{
    let r = orig.take(start - 1) + new_lines + orig.skip(end as int);
    assert(splice_s(orig, start, end, new_lines) == Some(r));
    assert forall|k: int| end <= k < orig.len() implies #[trigger] r[start - 1 + new_lines.len() + (k
        - end)] == orig[k] by {
        assert(orig.skip(end as int)[k - end] == orig[k]);
    }
}

/// Out-of-range bounds are clamped: a start of 0 counts as 1, an end past
/// the last line counts as the last line, and the call is refused exactly
/// when the clamped start comes after the clamped end.
pub proof fn lemma_splice_clamps(orig: Seq<Seq<char>>, start: nat, end: nat, new_lines: Seq<Seq<char>>)
    ensures
        splice_s(orig, 0, end, new_lines) == splice_s(orig, 1, end, new_lines),
        end > orig.len() ==> splice_s(orig, start, end, new_lines) == splice_s(
            orig,
            start,
            orig.len(),
            new_lines,
        ),
        splice_s(orig, start, end, new_lines) is None <==> (if start == 0 {
            0
        } else if start - 1 <= orig.len() {
            start - 1
        } else {
            orig.len() as int
        }) > (if end <= orig.len() {
            end as int
        } else {
            orig.len() as int
        }),
{
}

/// An empty range (`end = start - 1`) inserts the new lines before line
/// `start`; a start past the last line appends them.
pub proof fn lemma_splice_inserts(orig: Seq<Seq<char>>, start: nat, new_lines: Seq<Seq<char>>)
    requires
        1 <= start,
    ensures
        start <= orig.len() + 1 ==> splice_s(orig, start, (start - 1) as nat, new_lines) == Some(
            orig.take(start - 1) + new_lines + orig.skip(start - 1),
        ),
        start > orig.len() ==> splice_s(orig, start, start, new_lines) == Some(orig + new_lines),
{
    assert(orig.skip(orig.len() as int) =~= Seq::<Seq<char>>::empty());
    assert(orig.take(orig.len() as int) =~= orig);
    assert(orig + new_lines + Seq::<Seq<char>>::empty() =~= orig + new_lines);
}

pub open spec fn write_lines_s(original: Seq<char>, start: nat, end: nat, new_content: Seq<char>) -> Option<
    Seq<char>,
> {
    match splice_s(lines_s(original), start, end, lines_s(new_content)) {
        Some(ls) => Some(join_nl(ls)),
        None => None,
    }
}

/// Replaces lines `start..=end` (1-based) of a text with the new content's
/// lines, joining the result with `\n`; refuses a start past the end and a
/// result over `MAX_FILE_BYTES`.
pub fn splice_lines(original: &str, start: usize, end: usize, new_content: &str) -> (r: Result<
    String,
    DispatchError,
>)
    ensures
        write_lines_s(original@, start as nat, end as nat, new_content@) is None ==> (r matches Err(e)
            && e.code == INVALID_PARAMS && e.message@ == "start 不能大于 end"@),
        write_lines_s(original@, start as nat, end as nat, new_content@) matches Some(t) ==> (
        utf8_len(t) <= MAX_FILE_BYTES ==> (r matches Ok(x) && x@ == t)),
        write_lines_s(original@, start as nat, end as nat, new_content@) matches Some(t) ==> (
        utf8_len(t) > MAX_FILE_BYTES ==> (r matches Err(e) && e.code == TOOL_ERROR && !e.scope_refused && e.message@
            == "结果超过 2048 KiB 上限"@)),
{
    let old_lines = lines_of(original);
    let new_lines = lines_of(new_content);
    let total = old_lines.len();
    let s0 = (if start >= 1 {
        start
    } else {
        1
    }) - 1;
    let s = if s0 < total {
        s0
    } else {
        total
    };
    let e = if end < total {
        end
    } else {
        total
    };
    if s > e {
        return Err(DispatchError::invalid_params(owned("start 不能大于 end")));
    }
    let ghost ol = lines_s(original@);
    let ghost nl = lines_s(new_content@);
    let ghost want = ol.take(s as int) + nl + ol.skip(e as int);
    let mut parts: Vec<String> = Vec::new();
    let mut i: usize = 0;
    while i < s
        invariant
            i <= s <= e <= total,
            total == ol.len(),
            old_lines@.len() == ol.len(),
            forall|k: int| 0 <= k < old_lines@.len() ==> (#[trigger] old_lines@[k])@ == ol[k],
            parts@.len() == i,
            forall|k: int| 0 <= k < i ==> (#[trigger] parts@[k])@ == want[k],
            want == ol.take(s as int) + nl + ol.skip(e as int),
        decreases s - i,
    {
        parts.push(old_lines[i].clone());
        i += 1;
    }
    let mut j: usize = 0;
    while j < new_lines.len()
        invariant
            j <= new_lines@.len(),
            new_lines@.len() == nl.len(),
            forall|k: int| 0 <= k < new_lines@.len() ==> (#[trigger] new_lines@[k])@ == nl[k],
            parts@.len() == s + j,
            forall|k: int| 0 <= k < s + j ==> (#[trigger] parts@[k])@ == want[k],
            want == ol.take(s as int) + nl + ol.skip(e as int),
            s <= ol.len(),
        decreases new_lines@.len() - j,
    {
        parts.push(new_lines[j].clone());
        j += 1;
    }
    let mut k: usize = e;
    while k < total
        invariant
            e <= k <= total,
            total == ol.len(),
            s <= e,
            old_lines@.len() == ol.len(),
            forall|q: int| 0 <= q < old_lines@.len() ==> (#[trigger] old_lines@[q])@ == ol[q],
            parts@.len() == s + nl.len() + (k - e),
            forall|q: int| 0 <= q < parts@.len() ==> (#[trigger] parts@[q])@ == want[q],
            want == ol.take(s as int) + nl + ol.skip(e as int),
        decreases total - k,
    {
        parts.push(old_lines[k].clone());
        k += 1;
    }
    let ghost pv = Seq::new(parts@.len(), |q: int| parts@[q]@);
    assert(pv =~= want);
    let mut out: Vec<char> = Vec::new();
    let mut q: usize = 0;
    assert(pv.take(0) =~= Seq::<Seq<char>>::empty());
    while q < parts.len()
        invariant
            q <= parts@.len(),
            pv == Seq::new(parts@.len(), |q: int| parts@[q]@),
            out@ == join_nl(pv.take(q as int)),
        decreases parts@.len() - q,
    {
        if q > 0 {
            out.push('\n');
        }
        let mut pc = chars_of(parts[q].as_str());
        out.append(&mut pc);
        proof {
            let t = pv.take(q + 1);
            assert(t.drop_last() =~= pv.take(q as int));
            if q > 0 {
                assert(out@ =~= join_nl(pv.take(q as int)) + seq!['\n'] + parts@[q as int]@);
            } else {
                assert(out@ =~= parts@[q as int]@);
            }
        }
        q += 1;
    }
    assert(pv.take(parts@.len() as int) =~= pv);
    if utf8_len_of(out.as_slice()) > MAX_FILE_BYTES as u128 {
        return Err(DispatchError::tool(owned("结果超过 2048 KiB 上限")));
    }
    Ok(string_of(out.as_slice()))
}

proof fn lemma_split_join_nl(ls: Seq<Seq<char>>)
    requires
        ls.len() > 0,
        forall|i: int| 0 <= i < ls.len() ==> no_newline(#[trigger] ls[i]),
    ensures
        split_s(join_nl(ls), '\n') == ls,
    decreases ls.len(),
{
    if ls.len() == 1 {
        lemma_split_append_plain(Seq::<char>::empty(), ls[0], '\n');
        assert(Seq::<char>::empty() + ls[0] =~= ls[0]);
        assert(split_s(Seq::<char>::empty(), '\n') =~= seq![Seq::<char>::empty()]);
        assert(Seq::<char>::empty() + ls[0] =~= ls[0]);
        assert(seq![Seq::<char>::empty()].update(0, ls[0]) =~= ls);
    } else {
        let p = ls.drop_last();
        assert forall|i: int| 0 <= i < p.len() implies no_newline(#[trigger] p[i]) by {
            assert(p[i] == ls[i]);
        }
        lemma_split_join_nl(p);
        let x = join_nl(p) + seq!['\n'];
        assert(x.drop_last() =~= join_nl(p));
        assert(split_s(x, '\n') == p.push(Seq::<char>::empty()));
        assert(no_newline(ls.last()));
        lemma_split_append_plain(x, ls.last(), '\n');
        assert(Seq::<char>::empty() + ls.last() =~= ls.last());
        assert(p.push(Seq::<char>::empty()).update(p.len() as int, ls.last()) =~= ls);
        assert(join_nl(ls) == x + ls.last());
    }
}

/// What `mc_files_write_lines` writes reads back line for line: when no
/// line holds a line break, no line but the last ends in `\r`, and the last
/// is not empty, the lines of the written text are exactly the spliced
/// lines (so the new content sits at lines `start..`).
pub proof fn lemma_written_lines_read_back(ls: Seq<Seq<char>>)
    requires
        ls.len() > 0,
        forall|i: int| 0 <= i < ls.len() ==> no_newline(#[trigger] ls[i]),
        forall|i: int| 0 <= i < ls.len() - 1 ==> strip_cr(#[trigger] ls[i]) == ls[i],
        ls.last().len() > 0,
    ensures
        lines_s(join_nl(ls)) == ls,
{
    lemma_split_join_nl(ls);
    let t = join_nl(ls);
    assert(t.len() > 0 && t.last() == ls.last().last()) by {
        if ls.len() == 1 {
            assert(t == ls[0]);
        } else {
            assert(t == join_nl(ls.drop_last()) + seq!['\n'] + ls.last());
        }
    }
    assert(lines_s(t) =~= ls);
}

/// The body of `/api/server/start` and `/api/server/restart`.
#[derive(Debug, Clone)]
pub struct StartReq {
    pub mc_version: Option<String>,
    pub heap_mb: Option<u32>,
    pub server_port: Option<u16>,
    pub rcon_port: Option<u16>,
    pub rcon_password: Option<String>,
    pub wait_ready_secs: Option<u64>,
}

/// The start options of the panel's start: each field given, else the
/// configured value; a readiness limit of 120 s unless given.
pub fn build_start_options(req: StartReq, mc: &McConfig) -> (r: StartOptions)
    ensures
        r.mc_version@ == match req.mc_version {
            Some(v) => v@,
            None => mc.default_version@,
        },
        r.heap_mb == match req.heap_mb {
            Some(h) => h,
            None => mc.heap_mb,
        },
        r.server_port == Some(match req.server_port {
            Some(p) => p,
            None => mc.server_port,
        }),
        r.rcon_port == Some(match req.rcon_port {
            Some(p) => p,
            None => mc.rcon_port,
        }),
        req.rcon_password matches Some(p) ==> (r.rcon_password matches Some(x) && x@ == p@),
        req.rcon_password is None && mc.rcon_password@.len() == 0 ==> r.rcon_password is None,
        req.rcon_password is None && mc.rcon_password@.len() > 0 ==> (r.rcon_password matches Some(x)
            && x@ == mc.rcon_password@),
        r.wait_ready_secs == match req.wait_ready_secs {
            Some(w) => w,
            None => DEFAULT_WAIT_READY_SECS,
        },
        trim_s(mc.java_path@).len() == 0 ==> r.java_path is None,
        trim_s(mc.java_path@).len() > 0 ==> (r.java_path matches Some(p) && p@ == trim_s(
            mc.java_path@,
        )),
{
    let jp = trim(mc.java_path.as_str());
    let java = if jp.as_str().is_empty() {
        None
    } else {
        Some(jp)
    };
    let pw = match req.rcon_password {
        Some(p) => Some(p),
        None => if mc.rcon_password.as_str().is_empty() {
            None
        } else {
            Some(mc.rcon_password.clone())
        },
    };
    StartOptions {
        mc_version: match req.mc_version {
            Some(v) => v,
            None => mc.default_version.clone(),
        },
        heap_mb: match req.heap_mb {
            Some(h) => h,
            None => mc.heap_mb,
        },
        server_port: Some(
            match req.server_port {
                Some(p) => p,
                None => mc.server_port,
            },
        ),
        rcon_port: Some(
            match req.rcon_port {
                Some(p) => p,
                None => mc.rcon_port,
            },
        ),
        rcon_password: pw,
        wait_ready_secs: match req.wait_ready_secs {
            Some(w) => w,
            None => DEFAULT_WAIT_READY_SECS,
        },
        java_path: java,
    }
}

/// Log lines the panel asks for: 200 by default, at most 5000.
pub fn default_tail() -> (r: usize)
    ensures
        r == 200,
{
    200
}

/// The directory listed when the panel names none.
pub fn default_list_path() -> (r: String)
    ensures
        r@ == "."@,
{
    owned(".")
}

/// An entry of a directory listing.
#[derive(Debug, Clone)]
pub struct FileEntry {
    pub path: String,
    pub is_dir: bool,
    pub size: u64,
}

/// Listings show directories first, then by lower-cased path.
pub open spec fn file_key(e: FileEntry) -> (u64, Seq<char>, u64) {
    (
        if e.is_dir {
            0
        } else {
            1
        },
        crate::sorting::unicode_lowercase(e.path@),
        0,
    )
}

pub open spec fn file_key_fn() -> spec_fn(FileEntry) -> (u64, Seq<char>, u64) {
    |e: FileEntry| file_key(e)
}

pub fn sort_file_entries(v: Vec<FileEntry>) -> (r: Vec<FileEntry>)
    ensures
        exists|p: Seq<int>| #[trigger] crate::sorting::sorted_by(v@, file_key_fn(), r@, p),
{
    let mut keys: Vec<crate::sorting::SortKey> = Vec::new();
    let mut i: usize = 0;
    while i < v.len()
        invariant
            i <= v@.len(),
            keys@.len() == i,
            forall|j: int| 0 <= j < i ==> crate::sorting::kv(#[trigger] keys@[j]) == file_key_fn()(v@[j]),
        decreases v@.len() - i,
    {
        let low = crate::sorting::to_lowercase(v[i].path.as_str());
        let g: u64 = if v[i].is_dir {
            0
        } else {
            1
        };
        keys.push(crate::sorting::text_key(g, low.as_str(), 0));
        i += 1;
    }
    crate::sorting::sort_by_keys(v, keys, Ghost(file_key_fn()))
}

} // verus!
