use vstd::prelude::*;
use vstd::string::StringExecFns;

verus! {

/// The configuration root: `/etc/control` for the superuser, else
/// `<home>/.control`.
pub open spec fn confdir_spec(euid: u32, home: Seq<char>) -> Seq<char> {
    if euid == 0 {
        "/etc/control"@
    } else {
        home + "/.control"@
    }
}

/// The runtime root: `/run/control` for the superuser, else
/// `<home>/.control/run`.
pub open spec fn rundir_spec(euid: u32, home: Seq<char>) -> Seq<char> {
    if euid == 0 {
        "/run/control"@
    } else {
        home + "/.control/run"@
    }
}

/// `<prefix><suffix>` as one string.
fn join2(prefix: &str, suffix: &str) -> (r: String)
    ensures
        r@ == prefix@ + suffix@,
{
    String::from_str(prefix).concat(suffix)
}

/// `<prefix><middle><suffix>` as one string.
fn join3(prefix: &str, middle: &str, suffix: &str) -> (r: String)
    ensures
        r@ == prefix@ + middle@ + suffix@,
{
    let mut r = String::from_str(prefix);
    r.append(middle);
    r.append(suffix);
    r
}

/// The configuration root for the effective user `euid` whose home
/// directory is `home`.
pub fn confdir(euid: u32, home: &str) -> (r: String)
    ensures
        r@ == confdir_spec(euid, home@),
{
    if euid == 0 {
        String::from_str("/etc/control")
    } else {
        join2(home, "/.control")
    }
}

/// The runtime root for the effective user `euid` whose home directory is
/// `home`.
pub fn rundir(euid: u32, home: &str) -> (r: String)
    ensures
        r@ == rundir_spec(euid, home@),
{
    if euid == 0 {
        String::from_str("/run/control")
    } else {
        join2(home, "/.control/run")
    }
}

/// The enabled-set directory, `<conf>/enabled`.
pub fn confdir_enabled(euid: u32, home: &str) -> (r: String)
    ensures
        r@ == confdir_spec(euid, home@) + "/enabled"@,
{
    let conf = confdir(euid, home);
    join2(conf.as_str(), "/enabled")
}

/// The supervisor's lock file, `<run>/control.lock`.
pub fn control_lock(euid: u32, home: &str) -> (r: String)
    ensures
        r@ == rundir_spec(euid, home@) + "/control.lock"@,
{
    let run = rundir(euid, home);
    join2(run.as_str(), "/control.lock")
}

/// The control socket, `<run>/control.sock`.
pub fn control_sock(euid: u32, home: &str) -> (r: String)
    ensures
        r@ == rundir_spec(euid, home@) + "/control.sock"@,
{
    let run = rundir(euid, home);
    join2(run.as_str(), "/control.sock")
}

/// The PID-file of a service, `<run>/<name>.pid`.
pub fn pidfile(euid: u32, home: &str, service_name: &str) -> (r: String)
    ensures
        r@ == rundir_spec(euid, home@) + "/"@ + service_name@ + ".pid"@,
{
    let run = rundir(euid, home);
    join3(run.as_str(), "/", service_name).concat(".pid")
}

/// The descriptor of a service, `<conf>/<name>.toml`.
pub fn service_file(euid: u32, home: &str, service_name: &str) -> (r: String)
    ensures
        r@ == confdir_spec(euid, home@) + "/"@ + service_name@ + ".toml"@,
{
    let conf = confdir(euid, home);
    join3(conf.as_str(), "/", service_name).concat(".toml")
}

/// The enabled-set link of a service, `<conf>/enabled/<name>.toml`.
pub fn enabled_file(euid: u32, home: &str, service_name: &str) -> (r: String)
    ensures
        r@ == confdir_spec(euid, home@) + "/enabled/"@ + service_name@ + ".toml"@,
{
    let conf = confdir(euid, home);
    join3(conf.as_str(), "/enabled/", service_name).concat(".toml")
}

/// The target of an enabled-set link, `../<name>.toml`.
pub fn enabled_link_target(service_name: &str) -> (r: String)
    ensures
        r@ == "../"@ + service_name@ + ".toml"@,
{
    join3("../", service_name, ".toml")
}

} // verus!
