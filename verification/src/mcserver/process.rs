//! The server process: its status values, the command line it is started
//! with, the ring of recent log lines, and how the log file is followed.
use crate::mcserver::props::lines_s;
use crate::text::{concat, decimal, owned, string_of, u64_to_string};
use vstd::prelude::*;

verus! {

/// Stopped → Starting → Running → Stopping → Stopped; a failed start goes
/// back to Stopped.
#[derive(Debug, Clone, Copy, PartialEq, Eq, Structural)]
pub enum ServerStatus {
    Stopped,
    Starting,
    Running,
    Stopping,
}

impl ServerStatus {
    /// The name used on the wire.
    pub fn as_str(&self) -> (r: &'static str)
        ensures
            r@ == match self {
                ServerStatus::Stopped => "stopped"@,
                ServerStatus::Starting => "starting"@,
                ServerStatus::Running => "running"@,
                ServerStatus::Stopping => "stopping"@,
            },
    {
        match self {
            ServerStatus::Stopped => "stopped",
            ServerStatus::Starting => "starting",
            ServerStatus::Running => "running",
            ServerStatus::Stopping => "stopping",
        }
    }
}

#[derive(Debug, Clone)]
pub struct ServerSnapshot {
    pub status: ServerStatus,
    pub pid: Option<u32>,
    pub mc_version: Option<String>,
    pub started_at: Option<i64>,
    pub work_dir: Option<String>,
}

/// One line of server output.
#[derive(Debug)]
pub struct LogLine {
    pub ts: i64,
    /// `stdout` or `stderr`.
    pub stream: &'static str,
    pub text: String,
}

impl LogLine {
    pub fn copy(&self) -> (r: LogLine)
        ensures
            r == *self,
    {
        LogLine { ts: self.ts, stream: self.stream, text: self.text.clone() }
    }
}

/// Most lines the ring holds; past it, the `LOG_RING_DRAIN` oldest are
/// dropped.
pub const LOG_RING_MAX: usize = 5000;

pub const LOG_RING_DRAIN: usize = 1000;

/// The ring after `line` is added to `s`: on overflow the 1000 oldest lines
/// are drained (5001 lines become 4001).
pub open spec fn ring_push(s: Seq<LogLine>, line: LogLine) -> Seq<LogLine> {
    let t = s.push(line);
    if t.len() > LOG_RING_MAX {
        t.skip(LOG_RING_DRAIN as int)
    } else {
        t
    }
}

/// The most recent server output.
pub struct LogRing {
    lines: Vec<LogLine>,
}

impl LogRing {
    #[verifier::type_invariant]
    spec fn inv(&self) -> bool {
        self.lines@.len() <= LOG_RING_MAX
    }

    pub closed spec fn view(&self) -> Seq<LogLine> {
        self.lines@
    }

    pub fn new() -> (r: LogRing)
        ensures
            r.view() == Seq::<LogLine>::empty(),
    {
        LogRing { lines: Vec::new() }
    }

    /// How many lines are kept; never more than `LOG_RING_MAX`.
    pub fn len(&self) -> (r: usize)
        ensures
            r == self.view().len(),
            r <= LOG_RING_MAX,
    {
        proof {
            use_type_invariant(self);
        }
        self.lines.len()
    }

    /// Adds a line; when the ring overflows, its `LOG_RING_DRAIN` oldest
    /// lines are dropped.
    pub fn push(&mut self, line: LogLine)
        ensures
            final(self).view() == ring_push(old(self).view(), line),
            final(self).view().len() <= LOG_RING_MAX,
            final(self).view().last() == line,
    {
        proof {
            use_type_invariant(&*self);
        }
        let mut lines = Vec::new();
        std::mem::swap(&mut lines, &mut self.lines);
        let ghost t = lines@.push(line);
        lines.push(line);
        if lines.len() > LOG_RING_MAX {
            let tail = lines.split_off(LOG_RING_DRAIN);
            lines = tail;
            assert(lines@ =~= t.skip(LOG_RING_DRAIN as int));
        }
        self.lines = lines;
    }

    /// The last `n` lines, oldest first (all of them when there are fewer).
    pub fn tail(&self, n: usize) -> (r: Vec<LogLine>)
        ensures
            r@ == self.view().skip(
                if self.view().len() >= n {
                    self.view().len() - n
                } else {
                    0
                },
            ),
    {
        let len = self.lines.len();
        let start: usize = if len >= n {
            len - n
        } else {
            0
        };
        let mut out: Vec<LogLine> = Vec::new();
        let mut i = start;
        while i < len
            invariant
                start <= i <= len,
                len == self.lines@.len(),
                out@ == self.lines@.subrange(start as int, i as int),
            decreases len - i,
        {
            out.push(self.lines[i].copy());
            i += 1;
            assert(out@ =~= self.lines@.subrange(start as int, i as int));
        }
        assert(self.lines@.skip(start as int) =~= self.lines@.subrange(start as int, len as int));
        out
    }
}

// ---------------------------------------------------------------------------
// Command line and console
// ---------------------------------------------------------------------------

pub open spec fn min_heap_mb(heap_mb: u32) -> u32 {
    if heap_mb < 1024 {
        heap_mb
    } else {
        1024
    }
}

/// The arguments Java is started with: the heap limits, a dumb terminal,
/// the jar and `nogui`.
pub fn java_args(heap_mb: u32, jar: &str) -> (r: Vec<String>)
    ensures
        r@.len() == 6,
        r@[0]@ == "-Xmx"@ + decimal(heap_mb as nat) + "M"@,
        r@[1]@ == "-Xms"@ + decimal(min_heap_mb(heap_mb) as nat) + "M"@,
        r@[2]@ == "-Djline.terminal=dumb"@,
        r@[3]@ == "-jar"@,
        r@[4]@ == jar@,
        r@[5]@ == "nogui"@,
{
    let mut v: Vec<String> = Vec::new();
    let a = concat("-Xmx", u64_to_string(heap_mb as u64).as_str());
    v.push(concat(a.as_str(), "M"));
    let lo: u32 = if heap_mb < 1024 {
        heap_mb
    } else {
        1024
    };
    let b = concat("-Xms", u64_to_string(lo as u64).as_str());
    v.push(concat(b.as_str(), "M"));
    v.push(owned("-Djline.terminal=dumb"));
    v.push(owned("-jar"));
    v.push(owned(jar));
    v.push(owned("nogui"));
    v
}

/// What is written to the server's standard input for a console command.
pub fn stdin_line(cmd: &str) -> (r: String)
    ensures
        r@ == cmd@ + "\n"@,
{
    concat(cmd, "\n")
}

// ---------------------------------------------------------------------------
// Following the log file
// ---------------------------------------------------------------------------

/// Where reading resumes and how many bytes to read, given the file's
/// length now and the offset reached so far: a file shorter than the offset
/// was recreated (the server restarted), so reading starts again at zero.
pub fn read_window(file_len: u64, offset: u64) -> (r: (u64, u64))
    ensures
        r.0 == if file_len < offset {
            0
        } else {
            offset
        },
        r.1 == if file_len <= r.0 {
            0
        } else {
            file_len - r.0
        },
{
    let start = if file_len < offset {
        0
    } else {
        offset
    };
    let count = if file_len <= start {
        0
    } else {
        file_len - start
    };
    (start, count)
}

/// The non-empty lines of newly read log text, in order.
pub open spec fn log_lines_s(s: Seq<char>) -> Seq<Seq<char>> {
    lines_s(s).filter(|l: Seq<char>| l.len() > 0)
}

pub fn log_lines(content: &str) -> (r: Vec<String>)
    ensures
        r@.len() == log_lines_s(content@).len(),
        forall|i: int| 0 <= i < r@.len() ==> (#[trigger] r@[i])@ == log_lines_s(content@)[i],
{
    let text = crate::mcserver::props::lines_of(content);
    let ghost ls = lines_s(content@);
    let mut out: Vec<String> = Vec::new();
    let mut i: usize = 0;
    let ghost pred = |l: Seq<char>| l.len() > 0;
    assert(ls.take(0).filter(pred) =~= Seq::<Seq<char>>::empty());
    while i < text.len()
        invariant
            i <= text@.len(),
            text@.len() == ls.len(),
            forall|k: int| 0 <= k < text@.len() ==> (#[trigger] text@[k])@ == ls[k],
            pred == (|l: Seq<char>| l.len() > 0),
            out@.len() == ls.take(i as int).filter(pred).len(),
            forall|k: int| 0 <= k < out@.len() ==> (#[trigger] out@[k])@ == ls.take(i as int).filter(pred)[k],
        decreases text@.len() - i,
    {
        let ghost before = ls.take(i as int);
        assert(ls.take(i + 1).drop_last() =~= before);
        proof {
            before.lemma_filter_push(ls[i as int], pred);
            assert(ls.take(i + 1) =~= before.push(ls[i as int]));
        }
        if !text[i].as_str().is_empty() {
            assert(ls[i as int].len() > 0);
            out.push(text[i].clone());
        } else {
            assert(ls[i as int].len() == 0) by {
                assert(text@[i as int]@ == ls[i as int]);
            }
        }
        i += 1;
    }
    assert(ls.take(text@.len() as int) =~= ls);
    out
}

} // verus!
