use control::command::{status, Report};
use control::paths::{
    confdir, confdir_enabled, control_lock, control_sock, enabled_file, enabled_link_target,
    pidfile, rundir, service_file,
};
use control::service::{meta, Control, Process, Service};
use control::table::{table_err, Table};

#[test]
fn root_paths() {
    assert_eq!(confdir(0, "/root"), "/etc/control");
    assert_eq!(rundir(0, "/root"), "/run/control");
    assert_eq!(confdir_enabled(0, "/root"), "/etc/control/enabled");
    assert_eq!(control_lock(0, "/root"), "/run/control/control.lock");
    assert_eq!(control_sock(0, "/root"), "/run/control/control.sock");
    assert_eq!(pidfile(0, "/root", "web"), "/run/control/web.pid");
    assert_eq!(service_file(0, "/root", "web"), "/etc/control/web.toml");
    assert_eq!(enabled_file(0, "/root", "web"), "/etc/control/enabled/web.toml");
    assert_eq!(enabled_link_target("web"), "../web.toml");
}

#[test]
fn user_paths() {
    assert_eq!(confdir(1000, "/home/u"), "/home/u/.control");
    assert_eq!(rundir(1000, "/home/u"), "/home/u/.control/run");
    assert_eq!(control_lock(1000, "/home/u"), "/home/u/.control/run/control.lock");
    assert_eq!(pidfile(1000, "/home/u", "db"), "/home/u/.control/run/db.pid");
}

#[test]
fn render_table() {
    let mut t = Table::new();
    t.first("ab");
    t.field("x", "R");
    assert_eq!(
        t.render(),
        "\n  \u{1b}[1;37mab\u{1b}[0m \u{1b}[2;37m|\u{1b}[0m Rx\u{1b}[0m      \n"
    );
}

#[test]
fn render_error_row() {
    let t = table_err("control", "Already running");
    let text = t.render();
    assert!(text.starts_with("\n  \u{1b}[1;37mcontrol\u{1b}[0m"));
    assert!(text.contains("\u{1b}[1;31mAlready running\u{1b}[0m"));
    assert!(text.ends_with("\n"));
}

#[test]
fn ppfirst_and_empty() {
    let mut t = Table::new();
    t.ppfirst("/etc/control/", "web", ".toml");
    t.field("OK", "\u{1b}[1;32m");
    t.first("db");
    t.empty(2);
    let text = t.render();
    assert_eq!(text.lines().count(), 3);
    assert!(text.contains("\u{1b}[2;37m/etc/control/\u{1b}[0m\u{1b}[1;37mweb\u{1b}[0m"));
}

fn svc(one_time: bool) -> Service {
    Service {
        control: Control { descr: "d".to_string(), depends: vec![], one_time, restart: false, restart_always: false },
        process: Process {
            start_cmd: vec!["/bin/true".to_string()],
            stop_cmd: None,
            stop_sig: 15,
            restart_cmd: None,
            restart_sig: None,
            reload_cmd: None,
            reload_sig: 1,
        },
        system: None,
        env: None,
    }
}

#[test]
fn status_rows() {
    let names = vec!["a".to_string(), "b".to_string(), "c".to_string(), "d".to_string()];
    let metas = vec![
        meta(false, None, false, None),
        meta(true, None, false, None),
        meta(true, Some(svc(true)), true, None),
        meta(true, Some(svc(false)), false, Some(4)),
    ];
    let t = status(&names, &metas);
    let text = t.render();
    assert_eq!(text.lines().count(), 5);
    assert!(text.contains("Not exists"));
    assert!(text.contains("Invalid"));
    assert!(text.contains("One time"));
    assert!(text.contains("Running"));
    assert_eq!(Report::Disabled.text(), "Disabled");
    assert_eq!(Report::Disabled.color(), "\u{1b}[1;33m");
}

#[test]
fn check_rows() {
    let names = vec!["db".to_string(), "web".to_string()];
    let t = control::command::check("/etc/control", &names, &vec![true, false]);
    let text = t.render();
    assert_eq!(text.lines().count(), 3);
    assert!(text.contains("\u{1b}[2;37m/etc/control/\u{1b}[0m\u{1b}[1;37mdb\u{1b}[0m\u{1b}[2;37m.toml\u{1b}[0m"));
    assert!(text.contains("\u{1b}[1;32mOK\u{1b}[0m"));
    assert!(text.contains("\u{1b}[1;31mInvalid\u{1b}[0m"));
}

#[test]
fn enable_disable_checks() {
    let linked = meta(true, Some(svc(false)), true, None);
    let unlinked = meta(true, Some(svc(false)), false, None);
    let absent = meta(false, None, false, None);
    assert_eq!(control::command::enable(&linked), Some(Report::AlreadyEnabled));
    assert_eq!(control::command::enable(&unlinked), None);
    assert_eq!(control::command::enable(&absent), Some(Report::ServiceNotExists));
    assert_eq!(control::command::disable(&unlinked), Some(Report::AlreadyDisabled));
    assert_eq!(control::command::disable(&linked), None);
    assert_eq!(Report::AlreadyEnabled.text(), "Already enabled");
}
