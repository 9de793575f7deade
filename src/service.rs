use crate::error::Error;
use vstd::prelude::*;

verus! {

/// The `control` table of a service descriptor.
pub struct Control {
    pub descr: String,
    pub depends: Vec<String>,
    pub one_time: bool,
    pub restart: bool,
    pub restart_always: bool,
}

/// The `process` table of a service descriptor.
pub struct Process {
    pub start_cmd: Vec<String>,
    pub stop_cmd: Option<Vec<String>>,
    pub stop_sig: i32,
    pub restart_cmd: Option<Vec<String>>,
    pub restart_sig: Option<i32>,
    pub reload_cmd: Option<Vec<String>>,
    pub reload_sig: i32,
}

/// The `system` table of a service descriptor.
pub struct System {
    pub user: Option<String>,
    pub group: Option<String>,
    pub workdir: Option<String>,
}

/// A service descriptor.
pub struct Service {
    pub control: Control,
    pub process: Process,
    pub system: Option<System>,
    pub env: Option<Vec<(String, String)>>,
}

/// What the supervisor does for an action: run a command, detached, or
/// send a signal to a process.
pub enum Action {
    Spawn(Vec<String>),
    Signal { pid: i32, sig: i32 },
}

/// The hangup signal on Linux.
pub const SIGHUP: i32 = 1;

/// The terminate signal on Linux.
pub const SIGTERM: i32 = 15;

impl Service {
    /// The descriptor can be started: its start command names a program.
    pub open spec fn wf(&self) -> bool {
        self.process.start_cmd.len() > 0
    }

    /// Whether the start command names a program.
    pub fn is_valid(&self) -> (r: bool)
        ensures
            r == self.wf(),
    {
        self.process.start_cmd.len() > 0
    }
}

/// The default dependency list: empty.
pub fn xvec() -> (r: Vec<String>)
    ensures
        r@.len() == 0,
{
    Vec::new()
}

/// The default of the descriptor's flags: false.
pub fn xfalse() -> (r: bool)
    ensures
        !r,
{
    false
}

/// Relies on libc::SIGHUP, which is 1 on Linux: the default reload signal.
#[verifier::external_body]
fn sighup() -> (r: i32)
    ensures
        r == SIGHUP,
{
    libc::SIGHUP
}

/// Relies on libc::SIGTERM, which is 15 on Linux: the default stop signal.
#[verifier::external_body]
pub(crate) fn sigterm() -> (r: i32)
    ensures
        r == SIGTERM,
{
    libc::SIGTERM
}

/// The default stop signal: terminate.
pub fn default_stop_sig() -> (r: i32)
    ensures
        r == SIGTERM,
{
    sigterm()
}

/// The default reload signal: hangup.
pub fn default_reload_sig() -> (r: i32)
    ensures
        r == SIGHUP,
{
    sighup()
}

/// A copy of a vector of strings.
pub fn clone_argv(v: &Vec<String>) -> (r: Vec<String>)
    ensures
        r@ == v@,
{
    let mut r: Vec<String> = Vec::new();
    let mut i: usize = 0;
    while i < v.len()
        invariant
            i <= v.len(),
            r@ == v@.subrange(0, i as int),
        decreases v.len() - i,
    {
        r.push(v[i].clone());
        i += 1;
        assert(r@ =~= v@.subrange(0, i as int));
    }
    assert(r@ =~= v@);
    r
}

/// The action that runs `cmd`.
pub open spec fn spawn_of(cmd: Vec<String>) -> Action {
    Action::Spawn(cmd)
}

/// What stopping a service does: its stop command, else its stop signal
/// to the known PID, else nothing can be done.
pub open spec fn stop_spec(service: &Service, pid: Option<i32>) -> Result<Action, Error> {
    match service.process.stop_cmd {
        Some(cmd) => Ok(Action::Spawn(cmd)),
        None => match pid {
            Some(p) => Ok(Action::Signal { pid: p, sig: service.process.stop_sig }),
            None => Err(Error::NotFound),
        },
    }
}

/// What restarting a service does: its restart command, else its restart
/// signal, else nothing (the caller then stops and starts it).
pub open spec fn restart_spec(service: &Service, pid: i32) -> Result<Action, Error> {
    match service.process.restart_cmd {
        Some(cmd) => Ok(Action::Spawn(cmd)),
        None => match service.process.restart_sig {
            Some(sig) => Ok(Action::Signal { pid, sig }),
            None => Err(Error::NotFound),
        },
    }
}

/// What reloading a service does: its reload command, else its reload
/// signal.
pub open spec fn reload_spec(service: &Service, pid: i32) -> Action {
    match service.process.reload_cmd {
        Some(cmd) => Action::Spawn(cmd),
        None => Action::Signal { pid, sig: service.process.reload_sig },
    }
}

/// Two actions that do the same thing.
pub open spec fn same_action(a: Action, b: Action) -> bool {
    match (a, b) {
        (Action::Spawn(x), Action::Spawn(y)) => x@ == y@,
        (Action::Signal { pid: p, sig: s }, Action::Signal { pid: q, sig: t }) => p == q && s == t,
        _ => false,
    }
}

/// Two action results that do the same thing.
pub open spec fn same_result(a: Result<Action, Error>, b: Result<Action, Error>) -> bool {
    match (a, b) {
        (Ok(x), Ok(y)) => same_action(x, y),
        (Err(e), Err(f)) => e == f,
        _ => false,
    }
}

/// How to stop a service whose PID, if known, is `pid`.
pub fn stop(service: &Service, pid: Option<i32>) -> (r: Result<Action, Error>)
    ensures
        same_result(r, stop_spec(service, pid)),
{
    match &service.process.stop_cmd {
        Some(cmd) => Ok(Action::Spawn(clone_argv(cmd))),
        None => match pid {
            Some(p) => Ok(Action::Signal { pid: p, sig: service.process.stop_sig }),
            None => Err(Error::NotFound),
        },
    }
}

/// How to restart a running service with PID `pid`.
pub fn restart(service: &Service, pid: i32) -> (r: Result<Action, Error>)
    ensures
        same_result(r, restart_spec(service, pid)),
{
    match &service.process.restart_cmd {
        Some(cmd) => Ok(Action::Spawn(clone_argv(cmd))),
        None => match service.process.restart_sig {
            Some(sig) => Ok(Action::Signal { pid, sig }),
            None => Err(Error::NotFound),
        },
    }
}

/// How to reload a running service with PID `pid`.
pub fn reload(service: &Service, pid: i32) -> (r: Action)
    ensures
        same_action(r, reload_spec(service, pid)),
{
    match &service.process.reload_cmd {
        Some(cmd) => Action::Spawn(clone_argv(cmd)),
        None => Action::Signal { pid, sig: service.process.reload_sig },
    }
}

/// The outcome of spawning a detached command.
pub fn spawned(ok: bool) -> (r: Result<(), Error>)
    ensures
        r == (if ok { Ok::<(), Error>(()) } else { Err(Error::CannotSpawn) }),
{
    if ok {
        Ok(())
    } else {
        Err(Error::CannotSpawn)
    }
}

/// The outcome of `kill(2)` that returned `ret`.
pub fn killed(ret: i32) -> (r: Result<(), Error>)
    ensures
        r == (if ret == 0 { Ok::<(), Error>(()) } else { Err(Error::CannotKill) }),
{
    if ret == 0 {
        Ok(())
    } else {
        Err(Error::CannotKill)
    }
}

/// What the filesystem says of a service: whether its descriptor exists and
/// is valid, whether it is enabled, and whether it runs (has a PID-file).
pub struct Meta {
    pub exists: bool,
    pub valid: bool,
    pub enabled: bool,
    pub running: bool,
    pub service: Option<Service>,
    pub pid: Option<i32>,
}

/// The view of a service from what was read of the filesystem: whether the
/// descriptor file exists, the descriptor if it parsed, whether the
/// enabled-set link exists, and the PID read from the PID-file. A descriptor
/// without a start program is not valid; enabled and PID count only for a
/// valid descriptor that exists.
pub fn meta(exists: bool, parsed: Option<Service>, linked: bool, pidfile_pid: Option<i32>) -> (r: Meta)
    ensures
        r.exists == exists,
        r.valid == (parsed is Some && parsed.unwrap().wf()),
        r.valid ==> r.service == parsed,
        !r.valid ==> r.service is None,
        r.enabled == (exists && r.valid && linked),
        r.pid == (if exists && r.valid { pidfile_pid } else { None }),
        r.running == r.pid is Some,
{
    let (valid, service) = match parsed {
        Some(s) => if s.is_valid() {
            (true, Some(s))
        } else {
            (false, None)
        },
        None => (false, None),
    };
    let enabled = exists && valid && linked;
    let pid = if exists && valid {
        pidfile_pid
    } else {
        None
    };
    let running = pid.is_some();
    Meta { exists, valid, enabled, running, service, pid }
}

/// The outcome of asking the daemon to start a service: `NoDaemon` where
/// the socket gave no reply, `NotFound` where it replied 0, else success.
pub fn start_socket(reply: Option<i32>) -> (r: Result<(), Error>)
    ensures
        r == (match reply {
            None => Err(Error::NoDaemon),
            Some(pid) => if pid == 0 { Err(Error::NotFound) } else { Ok(()) },
        }),
{
    match reply {
        None => Err(Error::NoDaemon),
        Some(pid) => if pid == 0 {
            Err(Error::NotFound)
        } else {
            Ok(())
        },
    }
}

/// What spawning a service's start command takes: the program and its
/// arguments, the user and group to run as (looked up only when the
/// supervisor is the superuser), the working directory, the environment
/// overlay, and whether to wait for the child.
pub struct StartPlan {
    pub program: String,
    pub args: Vec<String>,
    pub user: Option<String>,
    pub group: Option<String>,
    pub workdir: Option<String>,
    pub env: Vec<(String, String)>,
    pub wait: bool,
}

fn clone_opt(o: &Option<String>) -> (r: Option<String>)
    ensures
        r == *o,
{
    match o {
        Some(x) => Some(x.clone()),
        None => None,
    }
}

fn clone_env(v: &Vec<(String, String)>) -> (r: Vec<(String, String)>)
    ensures
        r@ == v@,
{
    let mut r: Vec<(String, String)> = Vec::new();
    let mut i: usize = 0;
    while i < v.len()
        invariant
            i <= v.len(),
            r@ == v@.subrange(0, i as int),
        decreases v.len() - i,
    {
        let (k, x) = &v[i];
        r.push((k.clone(), x.clone()));
        i += 1;
        assert(r@ =~= v@.subrange(0, i as int));
    }
    assert(r@ =~= v@);
    r
}

/// The user a service runs as, given the supervisor's effective UID.
pub open spec fn user_of(service: &Service, euid: u32) -> Option<String> {
    match service.system {
        Some(sys) => if euid == 0 { sys.user } else { None },
        None => None,
    }
}

/// The group a service runs as, given the supervisor's effective UID.
pub open spec fn group_of(service: &Service, euid: u32) -> Option<String> {
    match service.system {
        Some(sys) => if euid == 0 { sys.group } else { None },
        None => None,
    }
}

/// The working directory of a service.
pub open spec fn workdir_of(service: &Service) -> Option<String> {
    match service.system {
        Some(sys) => sys.workdir,
        None => None,
    }
}

/// The environment overlay of a service.
pub open spec fn env_of(service: &Service) -> Seq<(String, String)> {
    match service.env {
        Some(e) => e@,
        None => Seq::empty(),
    }
}

/// How to spawn the start command of `service` for a supervisor whose
/// effective UID is `euid`.
pub fn plan_start(service: &Service, euid: u32) -> (r: StartPlan)
    requires
        service.wf(),
    ensures
        r.program == service.process.start_cmd@[0],
        r.args@ == service.process.start_cmd@.subrange(1, service.process.start_cmd@.len() as int),
        r.user == user_of(service, euid),
        r.group == group_of(service, euid),
        r.workdir == workdir_of(service),
        r.env@ == env_of(service),
        r.wait == service.control.one_time,
{
    let cmd = &service.process.start_cmd;
    let program = cmd[0].clone();
    let mut args: Vec<String> = Vec::new();
    let mut i: usize = 1;
    while i < cmd.len()
        invariant
            1 <= i <= cmd.len(),
            args@ == cmd@.subrange(1, i as int),
        decreases cmd.len() - i,
    {
        args.push(cmd[i].clone());
        i += 1;
        assert(args@ =~= cmd@.subrange(1, i as int));
    }
    let (user, group, workdir) = match &service.system {
        Some(sys) => {
            let (user, group) = if euid == 0 {
                (clone_opt(&sys.user), clone_opt(&sys.group))
            } else {
                (None, None)
            };
            (user, group, clone_opt(&sys.workdir))
        },
        None => (None, None, None),
    };
    let env = match &service.env {
        Some(e) => clone_env(e),
        None => Vec::new(),
    };
    StartPlan { program, args, user, group, workdir, env, wait: service.control.one_time }
}

/// The outcome of starting a service: the child's PID, `NotFound` for a
/// one-time service (awaited, nothing to track), `CannotSpawn` where no
/// child came.
pub fn start_outcome(one_time: bool, child: Option<i32>) -> (r: Result<i32, Error>)
    ensures
        r == (match child {
            None => Err(Error::CannotSpawn),
            Some(pid) => if one_time { Err(Error::NotFound) } else { Ok(pid) },
        }),
{
    match child {
        None => Err(Error::CannotSpawn),
        Some(pid) => if one_time {
            Err(Error::NotFound)
        } else {
            Ok(pid)
        },
    }
}

} // verus!
