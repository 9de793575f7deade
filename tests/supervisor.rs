use control::command::{Children, Report, RestartNext};
use control::error::Error;
use control::service::{
    default_reload_sig, default_stop_sig, killed, meta, plan_start, reload, restart, spawned, start_outcome, start_socket, stop, System,
    xfalse, xvec, Action, Control, Process, Service,
};
use control::wait::is_dirty;
use control::{command, protocol};

fn s(x: &str) -> String {
    x.to_string()
}

fn control(restart: bool, restart_always: bool, one_time: bool) -> Control {
    Control { descr: s("test"), depends: vec![], one_time, restart, restart_always }
}

fn service(start: &[&str]) -> Service {
    Service {
        control: control(false, false, false),
        process: Process {
            start_cmd: start.iter().map(|x| s(x)).collect(),
            stop_cmd: None,
            stop_sig: 15,
            restart_cmd: None,
            restart_sig: None,
            reload_cmd: None,
            reload_sig: 1,
        },
        system: None,
        env: None,
    }
}

#[test]
fn dirty_classification() {
    assert!(!is_dirty(0));
    assert!(is_dirty(1 << 8));
    assert!(!is_dirty(15));
    assert!(is_dirty(11 | 0x80));
    assert!(!is_dirty(0x137f));
}

#[test]
fn restart_on_failure() {
    let mut children = Children::new();
    children.record_start("crashy", &control(true, false, false), 100);
    assert_eq!(children.len(), 1);
    assert_eq!(children.reap(100, 1 << 8), Some(s("crashy")));
    assert_eq!(children.len(), 0);
    children.record_start("crashy", &control(true, false, false), 101);
    assert_eq!(children.len(), 1);
    assert_eq!(children.reap(101, 0), None);
}

#[test]
fn restart_always_on_clean_exit() {
    let mut children = Children::new();
    children.record_start("once", &control(false, true, false), 7);
    assert_eq!(children.reap(7, 0), Some(s("once")));
    assert_eq!(children.reap(7, 0), None);
}

#[test]
fn stop_marks_child_non_restart() {
    let mut children = Children::new();
    children.record_start("svc", &control(true, true, false), 42);
    assert_eq!(children.record_stop("svc", Some(42)), Some(42));
    assert_eq!(children.get(42), Some((s("svc"), false, false)));
    assert_eq!(children.reap(42, 15), None);
    assert_eq!(children.len(), 0);
    assert_eq!(children.record_stop("svc", None), None);
    assert_eq!(children.len(), 0);
}

#[test]
fn stop_via_signal() {
    let svc = service(&["/bin/sleep", "100"]);
    match stop(&svc, Some(9)) {
        Ok(Action::Signal { pid, sig }) => assert_eq!((pid, sig), (9, 15)),
        _ => panic!("expected a signal"),
    }
    assert!(matches!(stop(&svc, None), Err(Error::NotFound)));
    let mut svc = svc;
    svc.process.stop_cmd = Some(vec![s("/bin/kill-it")]);
    match stop(&svc, None) {
        Ok(Action::Spawn(cmd)) => assert_eq!(cmd, vec![s("/bin/kill-it")]),
        _ => panic!("expected a command"),
    }
}

#[test]
fn restart_and_reload_actions() {
    let mut svc = service(&["/bin/true"]);
    assert!(matches!(restart(&svc, 5), Err(Error::NotFound)));
    svc.process.restart_sig = Some(10);
    assert!(matches!(restart(&svc, 5), Ok(Action::Signal { pid: 5, sig: 10 })));
    svc.process.restart_cmd = Some(vec![s("/bin/reexec")]);
    assert!(matches!(restart(&svc, 5), Ok(Action::Spawn(_))));
    assert!(matches!(reload(&svc, 5), Action::Signal { pid: 5, sig: 1 }));
    svc.process.reload_cmd = Some(vec![s("/bin/re")]);
    assert!(matches!(reload(&svc, 5), Action::Spawn(_)));
}

#[test]
fn restart_fallback_only_without_restart_action() {
    assert_eq!(command::restart_done(Err(Error::NotFound)), RestartNext::Fallback);
    assert_eq!(command::restart_done(Ok(())), RestartNext::Report(Report::Restarted));
    assert_eq!(command::restart_done(Err(Error::CannotKill)), RestartNext::Report(Report::CannotRestart));
    assert_eq!(command::restart_stopped(Err(Error::CannotSpawn)), Some(Report::CannotStop));
    assert_eq!(command::restart_stopped(Ok(())), None);
    assert_eq!(command::restart_started(Err(Error::NotFound)), Report::CannotStart);
}

#[test]
fn outcomes() {
    assert_eq!(spawned(true), Ok(()));
    assert_eq!(spawned(false), Err(Error::CannotSpawn));
    assert_eq!(killed(0), Ok(()));
    assert_eq!(killed(-1), Err(Error::CannotKill));
    assert_eq!(start_outcome(false, Some(12)), Ok(12));
    assert_eq!(start_outcome(true, Some(12)), Err(Error::NotFound));
    assert_eq!(start_outcome(false, None), Err(Error::CannotSpawn));
    assert_eq!(start_socket(None), Err(Error::NoDaemon));
    assert_eq!(start_socket(Some(0)), Err(Error::NotFound));
    assert_eq!(start_socket(Some(77)), Ok(()));
}

#[test]
fn defaults() {
    assert!(xvec().is_empty());
    assert!(!xfalse());
    assert_eq!(default_stop_sig(), 15);
    assert_eq!(default_reload_sig(), 1);
}

#[test]
fn meta_rules() {
    let m = meta(true, Some(service(&["/bin/true"])), true, Some(3));
    assert!(m.exists && m.valid && m.enabled && m.running);
    assert_eq!(m.pid, Some(3));
    let m = meta(true, Some(service(&[])), true, Some(3));
    assert!(!m.valid && !m.enabled && !m.running && m.service.is_none());
    let m = meta(false, None, true, Some(3));
    assert!(!m.exists && !m.valid && !m.enabled && m.pid.is_none());
}

#[test]
fn command_checks() {
    let running = meta(true, Some(service(&["/bin/true"])), false, Some(3));
    let idle = meta(true, Some(service(&["/bin/true"])), false, None);
    let absent = meta(false, None, false, None);
    let bad = meta(true, None, false, None);
    assert_eq!(command::start(&running), Some(Report::AlreadyRunning));
    assert_eq!(command::start(&idle), None);
    assert_eq!(command::start(&absent), Some(Report::ServiceNotExists));
    assert_eq!(command::start(&bad), Some(Report::InvalidService));
    assert_eq!(command::stop(&idle), Some(Report::NotRunning));
    assert_eq!(command::stop(&running), None);
    assert_eq!(command::restart(&idle), Some(Report::NotRunning));
    assert_eq!(command::reload(&running), None);
    assert_eq!(command::start_done(Err(Error::NoDaemon)), None);
    assert_eq!(command::start_done(Err(Error::NotFound)), Some(Report::CannotStart));
    assert_eq!(command::start_done(Ok(())), Some(Report::Started));
    assert_eq!(command::stop_done(Ok(())), Report::Stopped);
    assert_eq!(command::reload_done(Err(Error::CannotKill)), Report::CannotReload);
}

#[test]
fn one_time_service() {
    let mut svc = service(&["/bin/setup"]);
    svc.control.one_time = true;
    assert_eq!(start_outcome(true, Some(55)), Err(Error::NotFound));
    let m = meta(true, Some(svc), true, None);
    assert_eq!(command::stop(&m), None);
    assert_eq!(command::status_row(&m), (Report::Enabled, Report::OneTime));
}

#[test]
fn socket_start_is_idempotent() {
    assert_eq!(protocol::start(Some(1234)), protocol::StartStep::Reply(1234));
    assert_eq!(protocol::start(Some(1234)), protocol::StartStep::Reply(1234));
    assert_eq!(protocol::start(None), protocol::StartStep::Spawn);
    assert_eq!(protocol::started_pid(Ok(9)), 9);
    assert_eq!(protocol::started_pid(Err(Error::CannotSpawn)), 0);
}

#[test]
fn stale_pidfile_still_answers() {
    // a PID that names no process is still the answer
    assert_eq!(protocol::start(Some(999_999)), protocol::StartStep::Reply(999_999));
}

#[test]
fn exit_code_is_read_from_its_byte() {
    assert!(!is_dirty(0x10000));
    assert!(is_dirty(0x0a00));
}

#[test]
fn stop_all_candidates() {
    let enabled = vec![s("a"), s("b")];
    let running = vec![s("b"), s("c"), s("c")];
    assert_eq!(command::stop_all_names(&enabled, &running), vec![s("a"), s("b"), s("c")]);
    assert_eq!(command::stop_all_names(&vec![], &vec![]), Vec::<String>::new());
    let mut once = service(&["/bin/setup"]);
    once.control.one_time = true;
    assert!(command::stop_all_wants(&meta(true, Some(once), false, None)));
    assert!(command::stop_all_wants(&meta(true, Some(service(&["/bin/x"])), false, Some(4))));
    assert!(!command::stop_all_wants(&meta(true, Some(service(&["/bin/x"])), false, None)));
    assert!(!command::stop_all_wants(&meta(false, None, false, None)));
}

#[test]
fn start_plan() {
    let mut svc = service(&["/bin/server", "--port", "80"]);
    svc.control.one_time = true;
    svc.system = Some(System { user: Some(s("www")), group: Some(s("web")), workdir: Some(s("/srv")) });
    svc.env = Some(vec![(s("A"), s("1"))]);
    let root = plan_start(&svc, 0);
    assert_eq!(root.program, "/bin/server");
    assert_eq!(root.args, vec![s("--port"), s("80")]);
    assert_eq!(root.user, Some(s("www")));
    assert_eq!(root.group, Some(s("web")));
    assert_eq!(root.workdir, Some(s("/srv")));
    assert_eq!(root.env, vec![(s("A"), s("1"))]);
    assert!(root.wait);
    let user = plan_start(&svc, 1000);
    assert_eq!(user.user, None);
    assert_eq!(user.group, None);
    assert_eq!(user.workdir, Some(s("/srv")));
}
