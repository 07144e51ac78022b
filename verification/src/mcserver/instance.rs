//! The one server instance this process supervises: the state machine of
//! starting, running and stopping, and the errors a start can end in.
//!
//! The process itself, the waiting and the event broadcast are the
//! caller's; every transition of the state is made here.
use crate::credentials::gen_rcon_password;
use crate::mcserver::process::{ServerSnapshot, ServerStatus};
use crate::runtime::env::EnvCheck;
use crate::runtime::java_probe::JavaInfo;
use crate::runtime::paper::CachedPaper;
use crate::text::{concat, decimal, owned, u64_to_string};
use vstd::prelude::*;

verus! {

/// Why a start failed.
#[derive(Debug)]
pub enum StartError {
    /// Java or the Paper jar is missing; the caller may install them.
    EnvMissing { need_java_major: u32, have_java: Option<u32>, paper_cached: bool },
    /// The server is not stopped.
    BadState { status: ServerStatus },
    /// The process could not be started; the message says why.
    Spawn(String),
    /// The server did not become ready within this many seconds.
    ReadyTimeout(u64),
}

/// The form of a start error sent to clients, with a hint of what to do.
#[derive(Debug, Clone)]
pub enum StartErrorWire {
    EnvMissing {
        need_java_major: u32,
        have_java: Option<u32>,
        paper_cached: bool,
        suggested_action: &'static str,
    },
    BadState { status: ServerStatus },
    Spawn { message: String },
    ReadyTimeout { seconds: u64 },
}

pub open spec fn wire_of(e: StartError, w: StartErrorWire) -> bool {
    match e {
        StartError::EnvMissing { need_java_major, have_java, paper_cached } => w
            == StartErrorWire::EnvMissing {
            need_java_major,
            have_java,
            paper_cached,
            suggested_action: w->suggested_action,
        } && w->suggested_action@ == "mc_env_install_java_or_paper"@,
        StartError::BadState { status } => w == StartErrorWire::BadState { status },
        StartError::Spawn(m) => w matches StartErrorWire::Spawn { message } && message@ == m@,
        StartError::ReadyTimeout(s) => w == StartErrorWire::ReadyTimeout { seconds: s },
    }
}

impl StartErrorWire {
    pub fn from_error(e: &StartError) -> (r: StartErrorWire)
        ensures
            wire_of(*e, r),
    {
        match e {
            StartError::EnvMissing { need_java_major, have_java, paper_cached } => {
                StartErrorWire::EnvMissing {
                    need_java_major: *need_java_major,
                    have_java: *have_java,
                    paper_cached: *paper_cached,
                    suggested_action: "mc_env_install_java_or_paper",
                }
            },
            StartError::BadState { status } => StartErrorWire::BadState { status: *status },
            StartError::Spawn(m) => StartErrorWire::Spawn { message: m.clone() },
            StartError::ReadyTimeout(s) => StartErrorWire::ReadyTimeout { seconds: *s },
        }
    }
}

/// How to reach the running server over RCON.
#[derive(Debug, Clone)]
pub struct RconEndpoint {
    pub host: String,
    pub port: u16,
    pub password: String,
}

#[derive(Debug, Clone)]
pub struct StartOptions {
    pub mc_version: String,
    pub heap_mb: u32,
    pub server_port: Option<u16>,
    pub rcon_port: Option<u16>,
    pub rcon_password: Option<String>,
    pub wait_ready_secs: u64,
    /// A Java given in the configuration; when set, discovery is skipped.
    pub java_path: Option<String>,
}

/// The running process, as far as the state needs it.
#[derive(Debug, Clone)]
pub struct ProcessInfo {
    pub pid: u32,
    pub mc_version: String,
    pub started_at: i64,
    pub work_dir: String,
}

/// The configured Java, when one was given: its path, whether the file
/// exists, and what inspecting it found.
pub struct ExplicitJava {
    pub path: String,
    pub exists: bool,
    pub inspected: Option<JavaInfo>,
}

pub open spec fn java_missing_text(path: Seq<char>) -> Seq<char> {
    "config.mc.java_path 指定的 "@ + path + " 不存在"@
}

pub open spec fn java_unknown_text(path: Seq<char>) -> Seq<char> {
    "无法识别 "@ + path + " 的 Java 版本"@
}

/// The Java and jar a start uses: the configured Java when given (it must
/// exist and be recognised), else the one found; a missing Java or jar is
/// reported with what is there.
pub fn select_runtime(explicit: Option<ExplicitJava>, chk: EnvCheck) -> (r: Result<
    (JavaInfo, CachedPaper),
    StartError,
>)
    ensures
        match explicit {
            Some(x) => {
                &&& !x.exists ==> (r matches Err(StartError::Spawn(m)) && m@ == java_missing_text(
                    x.path@,
                ))
                &&& x.exists && x.inspected is None ==> (r matches Err(StartError::Spawn(m)) && m@
                    == java_unknown_text(x.path@))
                &&& x.exists ==> (x.inspected matches Some(j) ==> match chk.paper {
                    Some(p) => r == Ok::<(JavaInfo, CachedPaper), StartError>((j, p)),
                    None => r == Err::<(JavaInfo, CachedPaper), StartError>(
                        StartError::EnvMissing {
                            need_java_major: chk.need_java_major,
                            have_java: Some(j.major),
                            paper_cached: false,
                        },
                    ),
                })
            },
            None => match chk.java {
                None => r == Err::<(JavaInfo, CachedPaper), StartError>(
                    StartError::EnvMissing {
                        need_java_major: chk.need_java_major,
                        have_java: None,
                        paper_cached: chk.paper is Some,
                    },
                ),
                Some(j) => match chk.paper {
                    Some(p) => r == Ok::<(JavaInfo, CachedPaper), StartError>((j, p)),
                    None => r == Err::<(JavaInfo, CachedPaper), StartError>(
                        StartError::EnvMissing {
                            need_java_major: chk.need_java_major,
                            have_java: Some(j.major),
                            paper_cached: false,
                        },
                    ),
                },
            },
        },
{
    let java = match explicit {
        Some(x) => {
            if !x.exists {
                let a = concat("config.mc.java_path 指定的 ", x.path.as_str());
                return Err(StartError::Spawn(concat(a.as_str(), " 不存在")));
            }
            match x.inspected {
                Some(j) => j,
                None => {
                    let a = concat("无法识别 ", x.path.as_str());
                    return Err(StartError::Spawn(concat(a.as_str(), " 的 Java 版本")));
                },
            }
        },
        None => match chk.java {
            Some(j) => j,
            None => {
                return Err(
                    StartError::EnvMissing {
                        need_java_major: chk.need_java_major,
                        have_java: None,
                        paper_cached: chk.paper.is_some(),
                    },
                );
            },
        },
    };
    match chk.paper {
        Some(p) => Ok((java, p)),
        None => Err(
            StartError::EnvMissing {
                need_java_major: chk.need_java_major,
                have_java: Some(java.major),
                paper_cached: false,
            },
        ),
    }
}

/// The RCON port (25575 unless given) and password (the given one unless
/// empty, else a fresh random one) a start uses.
pub fn rcon_settings(port: Option<u16>, password: Option<String>) -> (r: (u16, String))
    ensures
        r.0 == match port {
            Some(p) => p,
            None => 25575u16,
        },
        password matches Some(p) ==> (p@.len() > 0 ==> r.1 == p),
        !(password matches Some(p) && p@.len() > 0) ==> r.1@.len() == 24,
{
    let port = match port {
        Some(p) => p,
        None => 25575,
    };
    match password {
        Some(p) => {
            if !p.as_str().is_empty() {
                return (port, p);
            }
            (port, gen_rcon_password())
        },
        None => (port, gen_rcon_password()),
    }
}

/// What the supervisor saw while a start is under way.
pub enum StartEvent {
    /// The process could not be started; the message says why.
    SpawnFailed(String),
    /// The process runs, with this RCON endpoint.
    Spawned { process: ProcessInfo, rcon: RconEndpoint },
    /// The server printed its ready line.
    Ready,
    /// No ready line came: the process exited first, or the wait ran out.
    NotReady,
}

/// What the supervisor does next in a start.
pub enum StartAction {
    /// Wait for the ready line.
    AwaitReady,
    /// Announce `Running` and report the snapshot.
    Succeed,
    /// Announce `Stopped` and fail with this error.
    Fail(StartError),
    /// End the process, announce `Stopped` and fail with this error.
    KillThenFail(StartError),
}

/// The message of a start whose process never became ready.
pub open spec fn not_ready_text() -> Seq<char> {
    "进程退出但未到达 Ready 状态"@
}

/// The supervised instance's state.
pub struct InstanceState {
    status: ServerStatus,
    process: Option<ProcessInfo>,
    rcon: Option<RconEndpoint>,
}

/// What stopping has to do.
pub enum StopAction {
    /// Already stopped: nothing.
    Nothing,
    /// Now stopping: end the process, if there is one.
    Stop { pid: Option<u32> },
}

impl InstanceState {
    /// A process and its RCON endpoint come and go together, and a stopped
    /// server has neither.
    #[verifier::type_invariant]
    spec fn inv(&self) -> bool {
        &&& (self.process is Some <==> self.rcon is Some)
        &&& (self.status == ServerStatus::Stopped ==> self.process is None)
    }

    pub closed spec fn status_spec(&self) -> ServerStatus {
        self.status
    }

    pub closed spec fn process_spec(&self) -> Option<ProcessInfo> {
        self.process
    }

    pub closed spec fn rcon_spec(&self) -> Option<RconEndpoint> {
        self.rcon
    }

    pub fn new() -> (r: InstanceState)
        ensures
            r.status_spec() == ServerStatus::Stopped,
            r.process_spec() is None,
            r.rcon_spec() is None,
    {
        InstanceState { status: ServerStatus::Stopped, process: None, rcon: None }
    }

    pub fn status(&self) -> (r: ServerStatus)
        ensures
            r == self.status_spec(),
    {
        self.status
    }

    /// A start is only possible from `Stopped`.
    pub fn check_can_start(&self) -> (r: Result<(), StartError>)
        ensures
            self.status_spec() == ServerStatus::Stopped ==> r is Ok,
            self.status_spec() != ServerStatus::Stopped ==> r == Err::<(), StartError>(
                StartError::BadState { status: self.status_spec() },
            ),
    {
        if self.status != ServerStatus::Stopped {
            return Err(StartError::BadState { status: self.status });
        }
        Ok(())
    }

    /// The environment checks passed: the server is starting.
    pub fn mark_starting(&mut self)
        requires
            old(self).status_spec() == ServerStatus::Stopped,
        ensures
            final(self).status_spec() == ServerStatus::Starting,
            final(self).process_spec() is None,
            final(self).rcon_spec() is None,
    {
        proof {
            use_type_invariant(&*self);
        }
        self.status = ServerStatus::Starting;
    }

    /// The process runs: it and its RCON endpoint are recorded.
    pub fn spawned(&mut self, process: ProcessInfo, rcon: RconEndpoint)
        requires
            old(self).status_spec() != ServerStatus::Stopped,
        ensures
            final(self).status_spec() == old(self).status_spec(),
            final(self).process_spec() == Some(process),
            final(self).rcon_spec() == Some(rcon),
    {
        let status = self.status;
        *self = InstanceState { status, process: Some(process), rcon: Some(rcon) };
    }

    /// The server said it is ready.
    pub fn ready(&mut self)
        ensures
            final(self).status_spec() == ServerStatus::Running,
            final(self).process_spec() == old(self).process_spec(),
            final(self).rcon_spec() == old(self).rcon_spec(),
    {
        proof {
            use_type_invariant(&*self);
        }
        self.status = ServerStatus::Running;
    }

    /// The process exited, or was killed after it did not become ready.
    pub fn exited(&mut self)
        ensures
            final(self).status_spec() == ServerStatus::Stopped,
            final(self).process_spec() is None,
            final(self).rcon_spec() is None,
    {
        *self = InstanceState { status: ServerStatus::Stopped, process: None, rcon: None };
    }

    /// One step of a start, once the server is `Starting`: what the
    /// supervisor saw decides the next state and what it does.  A process
    /// that appears after a stop already returned the state to `Stopped` is
    /// not recorded but ended; a missing ready line ends the start, as a
    /// timeout when a limit of `wait_ready_secs` was set.
    pub fn start_step(&mut self, event: StartEvent, wait_ready_secs: u64) -> (r: StartAction)
        ensures
            match event {
                StartEvent::SpawnFailed(msg) => final(self).status_spec() == ServerStatus::Stopped
                    && final(self).process_spec() is None && final(self).rcon_spec() is None && r
                    == StartAction::Fail(StartError::Spawn(msg)),
                StartEvent::Spawned { process, rcon } => if old(self).status_spec()
                    == ServerStatus::Stopped {
                    &&& final(self).status_spec() == ServerStatus::Stopped
                    &&& final(self).process_spec() is None
                    &&& final(self).rcon_spec() is None
                    &&& r matches StartAction::KillThenFail(StartError::Spawn(m))
                    &&& m@ == not_ready_text()
                } else {
                    &&& final(self).status_spec() == old(self).status_spec()
                    &&& final(self).process_spec() == Some(process)
                    &&& final(self).rcon_spec() == Some(rcon)
                    &&& r is AwaitReady
                },
                StartEvent::Ready => final(self).status_spec() == ServerStatus::Running
                    && final(self).process_spec() == old(self).process_spec()
                    && final(self).rcon_spec() == old(self).rcon_spec() && r is Succeed,
                StartEvent::NotReady => {
                    &&& final(self).status_spec() == ServerStatus::Stopped
                    &&& final(self).process_spec() is None
                    &&& final(self).rcon_spec() is None
                    &&& if wait_ready_secs == 0 {
                        r matches StartAction::Fail(StartError::Spawn(m)) && m@ == not_ready_text()
                    } else {
                        r == StartAction::KillThenFail(StartError::ReadyTimeout(wait_ready_secs))
                    }
                },
            },
    {
        proof {
            use_type_invariant(&*self);
        }
        match event {
            StartEvent::SpawnFailed(msg) => {
                self.exited();
                StartAction::Fail(StartError::Spawn(msg))
            },
            StartEvent::Spawned { process, rcon } => {
                if self.status == ServerStatus::Stopped {
                    StartAction::KillThenFail(StartError::Spawn(owned("进程退出但未到达 Ready 状态")))
                } else {
                    self.spawned(process, rcon);
                    StartAction::AwaitReady
                }
            },
            StartEvent::Ready => {
                self.ready();
                StartAction::Succeed
            },
            StartEvent::NotReady => {
                self.exited();
                if wait_ready_secs == 0 {
                    StartAction::Fail(StartError::Spawn(owned("进程退出但未到达 Ready 状态")))
                } else {
                    StartAction::KillThenFail(StartError::ReadyTimeout(wait_ready_secs))
                }
            },
        }
    }

    /// A stop request: nothing when stopped, else the state turns to
    /// `Stopping` and the process (if any) is to be ended; the exit itself
    /// is reported by `exited`.
    pub fn begin_stop(&mut self) -> (r: StopAction)
        ensures
            old(self).status_spec() == ServerStatus::Stopped ==> r is Nothing && final(self).status_spec()
                == ServerStatus::Stopped,
            old(self).status_spec() != ServerStatus::Stopped ==> (r matches StopAction::Stop { pid }
                && final(self).status_spec() == ServerStatus::Stopping && pid == match old(
                self,
            ).process_spec() {
                Some(p) => Some(p.pid),
                None => None,
            }),
            final(self).process_spec() == old(self).process_spec(),
            final(self).rcon_spec() == old(self).rcon_spec(),
    {
        proof {
            use_type_invariant(&*self);
        }
        if self.status == ServerStatus::Stopped {
            return StopAction::Nothing;
        }
        self.status = ServerStatus::Stopping;
        let pid = match &self.process {
            Some(p) => Some(p.pid),
            None => None,
        };
        StopAction::Stop { pid }
    }

    /// The status and, while there is a process, what it runs.  Every state
    /// reached has a process exactly when it has an RCON endpoint, and none
    /// when stopped.
    pub fn snapshot(&self) -> (r: ServerSnapshot)
        ensures
            self.process_spec() is Some <==> self.rcon_spec() is Some,
            self.status_spec() == ServerStatus::Stopped ==> self.process_spec() is None,
            r.status == self.status_spec(),
            match self.process_spec() {
                Some(p) => r.pid == Some(p.pid) && r.started_at == Some(p.started_at) && (
                r.mc_version matches Some(v) && v@ == p.mc_version@) && (r.work_dir matches Some(
                    w,
                ) && w@ == p.work_dir@),
                None => r.pid is None && r.mc_version is None && r.started_at is None
                    && r.work_dir is None,
            },
    {
        proof {
            use_type_invariant(self);
        }
        match &self.process {
            Some(p) => ServerSnapshot {
                status: self.status,
                pid: Some(p.pid),
                mc_version: Some(p.mc_version.clone()),
                started_at: Some(p.started_at),
                work_dir: Some(p.work_dir.clone()),
            },
            None => ServerSnapshot {
                status: self.status,
                pid: None,
                mc_version: None,
                started_at: None,
                work_dir: None,
            },
        }
    }

    /// The RCON endpoint while a process runs.
    pub fn rcon_endpoint(&self) -> (r: Option<RconEndpoint>)
        ensures
            match self.rcon_spec() {
                Some(e) => r matches Some(x) && x.host@ == e.host@ && x.port == e.port
                    && x.password@ == e.password@,
                None => r is None,
            },
    {
        match &self.rcon {
            Some(e) => Some(
                RconEndpoint { host: e.host.clone(), port: e.port, password: e.password.clone() },
            ),
            None => None,
        }
    }

    /// Console commands need a running process.
    pub fn console_target(&self) -> (r: Result<u32, String>)
        ensures
            match self.process_spec() {
                Some(p) => r == Ok::<u32, String>(p.pid),
                None => r matches Err(m) && m@ == "服务端未运行"@,
            },
    {
        match &self.process {
            Some(p) => Ok(p.pid),
            None => Err(owned("服务端未运行")),
        }
    }
}

/// The local RCON endpoint of a freshly started server.
pub fn local_rcon(port: u16, password: String) -> (r: RconEndpoint)
    ensures
        r.host@ == "127.0.0.1"@,
        r.port == port,
        r.password == password,
{
    RconEndpoint { host: owned("127.0.0.1"), port, password }
}

/// `{:?}` of a status.
pub open spec fn status_debug(s: ServerStatus) -> Seq<char> {
    match s {
        ServerStatus::Stopped => "Stopped"@,
        ServerStatus::Starting => "Starting"@,
        ServerStatus::Running => "Running"@,
        ServerStatus::Stopping => "Stopping"@,
    }
}

pub fn status_debug_name(s: ServerStatus) -> (r: &'static str)
    ensures
        r@ == status_debug(s),
{
    match s {
        ServerStatus::Stopped => "Stopped",
        ServerStatus::Starting => "Starting",
        ServerStatus::Running => "Running",
        ServerStatus::Stopping => "Stopping",
    }
}

pub open spec fn start_error_text_s(e: StartError) -> Seq<char> {
    match e {
        StartError::EnvMissing { need_java_major, .. } => "环境缺失：need Java "@ + decimal(
            need_java_major as nat,
        ) + "; paper jar 缺失？"@,
        StartError::BadState { status } => "已经在运行/启动中（status="@ + status_debug(status)
            + "）"@,
        StartError::Spawn(m) => "启动失败: "@ + m@,
        StartError::ReadyTimeout(s) => "等待 ready 超时（"@ + decimal(s as nat) + "s）"@,
    }
}

impl StartError {
    /// The error's text (its `Display` form).
    pub fn text(&self) -> (r: String)
        ensures
            r@ == start_error_text_s(*self),
    {
        match self {
            StartError::EnvMissing { need_java_major, .. } => {
                let a = concat("环境缺失：need Java ", u64_to_string(*need_java_major as u64).as_str());
                concat(a.as_str(), "; paper jar 缺失？")
            },
            StartError::BadState { status } => {
                let a = concat("已经在运行/启动中（status=", status_debug_name(*status));
                concat(a.as_str(), "）")
            },
            StartError::Spawn(m) => concat("启动失败: ", m.as_str()),
            StartError::ReadyTimeout(s) => {
                let a = concat("等待 ready 超时（", u64_to_string(*s).as_str());
                concat(a.as_str(), "s）")
            },
        }
    }

    /// The HTTP status and code a failed start is answered with.
    pub fn http_status(&self) -> (r: (u16, &'static str))
        ensures
            match *self {
                StartError::EnvMissing { .. } => r.0 == 412 && r.1@ == "env_missing"@,
                StartError::BadState { .. } => r.0 == 409 && r.1@ == "bad_state"@,
                StartError::ReadyTimeout(_) => r.0 == 408 && r.1@ == "ready_timeout"@,
                StartError::Spawn(_) => r.0 == 500 && r.1@ == "spawn_failed"@,
            },
    {
        match self {
            StartError::EnvMissing { .. } => (412, "env_missing"),
            StartError::BadState { .. } => (409, "bad_state"),
            StartError::ReadyTimeout(_) => (408, "ready_timeout"),
            StartError::Spawn(_) => (500, "spawn_failed"),
        }
    }
}

} // verus!
