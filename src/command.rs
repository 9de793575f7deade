use crate::error::Error;
use crate::service::{restart_spec, Action, Control, Meta, Service};
use crate::table::{cell, Table, BOLD, GREEN, RED, YELLOW};
use vstd::string::*;
use crate::wait::{is_dirty, is_dirty_spec};
use std::collections::HashMap;
use vstd::prelude::*;

verus! {

broadcast use vstd::std_specs::hash::group_hash_axioms;

/// A child record: the service's name, whether to restart it on a dirty
/// exit, and whether to restart it on any exit.
pub type ChildRecord = (String, bool, bool);

/// The supervisor's table of live children, keyed by PID.
pub struct Children {
    map: HashMap<i32, ChildRecord>,
}

impl View for Children {
    type V = Map<i32, ChildRecord>;

    closed spec fn view(&self) -> Map<i32, ChildRecord> {
        self.map@
    }
}

/// Whether a child that ended with `status` is started again.
pub open spec fn restart_due(child: ChildRecord, status: i32) -> bool {
    child.2 || (is_dirty_spec(status) && child.1)
}

impl Children {
    /// An empty table.
    pub fn new() -> (r: Children)
        ensures
            r@ == Map::<i32, ChildRecord>::empty(),
    {
        Children { map: HashMap::new() }
    }

    /// The number of children.
    pub fn len(&self) -> (r: usize)
        ensures
            r == self@.len(),
    {
        self.map.len()
    }

    /// The record of `pid`, if it is in the table.
    pub fn get(&self, pid: i32) -> (r: Option<ChildRecord>)
        ensures
            r == (if self@.contains_key(pid) { Some(self@[pid]) } else { None::<ChildRecord> }),
    {
        match self.map.get(&pid) {
            Some(c) => Some((c.0.clone(), c.1, c.2)),
            None => None,
        }
    }

    /// Puts the record of `pid` in the table, in place of any earlier one.
    pub fn insert(&mut self, pid: i32, child: ChildRecord)
        ensures
            final(self)@ == old(self)@.insert(pid, child),
    {
        self.map.insert(pid, child);
    }

    /// Takes the record of `pid` out of the table.
    pub fn remove(&mut self, pid: i32) -> (r: Option<ChildRecord>)
        ensures
            final(self)@ == old(self)@.remove(pid),
            r == (if old(self)@.contains_key(pid) { Some(old(self)@[pid]) } else { None::<ChildRecord> }),
    {
        self.map.remove(&pid)
    }

    /// Records a child spawned for `service_name`, with the restart policy
    /// of its descriptor.
    pub fn record_start(&mut self, service_name: &str, control: &Control, pid: i32)
        ensures
            final(self)@ == old(self)@.insert(
                pid,
                (final(self)@[pid].0, control.restart, control.restart_always),
            ),
            final(self)@[pid].0@ == service_name@,
    {
        self.insert(pid, (String::from_str(service_name), control.restart, control.restart_always));
    }

    /// Marks the child `pid` of `service_name` as being stopped: it is not
    /// started again when it ends. Returns `pid`.
    pub fn record_stop(&mut self, service_name: &str, pid: Option<i32>) -> (r: Option<i32>)
        ensures
            r == pid,
            match pid {
                Some(p) => final(self)@ == old(self)@.insert(p, (final(self)@[p].0, false, false))
                    && final(self)@[p].0@ == service_name@,
                None => final(self)@ == old(self)@,
            },
    {
        if let Some(p) = pid {
            self.insert(p, (String::from_str(service_name), false, false));
        }
        pid
    }

    /// Reaps the child `pid`, which ended with wait status `status`: its
    /// record leaves the table. Returns the service's name where its policy
    /// asks for it to be started again: on any exit, or on a dirty exit.
    pub fn reap(&mut self, pid: i32, status: i32) -> (r: Option<String>)
        ensures
            final(self)@ == old(self)@.remove(pid),
            r == (if old(self)@.contains_key(pid) && restart_due(old(self)@[pid], status) {
                Some(old(self)@[pid].0)
            } else {
                None::<String>
            }),
    {
        match self.remove(pid) {
            Some(child) => {
                let (name, restart, restart_always) = child;
                if restart_always || (is_dirty(status) && restart) {
                    Some(name)
                } else {
                    None
                }
            },
            None => None,
        }
    }
}

/// A child recorded at a start leaves the table at its reap, once: a second
/// reap of the same PID finds nothing and starts nothing.
pub proof fn lemma_reaped_once(m: Map<i32, ChildRecord>, pid: i32, child: ChildRecord)
    ensures
        m.insert(pid, child).contains_key(pid),
        !m.insert(pid, child).remove(pid).contains_key(pid),
        m.insert(pid, child).remove(pid).remove(pid) == m.insert(pid, child).remove(pid),
        m.insert(pid, child).remove(pid) == m.remove(pid),
{
    assert(m.insert(pid, child).remove(pid).remove(pid) =~= m.insert(pid, child).remove(pid));
    assert(m.insert(pid, child).remove(pid) =~= m.remove(pid));
}

/// A child marked as being stopped is never started again, whatever its
/// exit.
pub proof fn lemma_stopped_not_restarted(name: String, status: i32)
    ensures
        !restart_due((name, false, false), status),
{
}

/// What a command reports of a service.
#[derive(PartialEq, Eq, Structural, Clone, Copy, Debug)]
pub enum Report {
    ServiceNotExists,
    InvalidService,
    AlreadyRunning,
    NotRunning,
    Started,
    CannotStart,
    Stopped,
    CannotStop,
    Restarted,
    CannotRestart,
    Reloaded,
    CannotReload,
    NotExists,
    Invalid,
    Enabled,
    Disabled,
    OneTime,
    Running,
    AlreadyEnabled,
    AlreadyDisabled,
    Valid,
    Blank,
}

/// The text of a report.
pub open spec fn report_text(r: Report) -> Seq<char> {
    match r {
        Report::ServiceNotExists => "Service not exists"@,
        Report::InvalidService => "Invalid service"@,
        Report::AlreadyRunning => "Already running"@,
        Report::NotRunning => "Not running"@,
        Report::Started => "Started"@,
        Report::CannotStart => "Cannot start"@,
        Report::Stopped => "Stopped"@,
        Report::CannotStop => "Cannot stop"@,
        Report::Restarted => "Restarted"@,
        Report::CannotRestart => "Cannot restart"@,
        Report::Reloaded => "Reloaded"@,
        Report::CannotReload => "Cannot reload"@,
        Report::NotExists => "Not exists"@,
        Report::Invalid => "Invalid"@,
        Report::Enabled => "Enabled"@,
        Report::Disabled => "Disabled"@,
        Report::OneTime => "One time"@,
        Report::Running => "Running"@,
        Report::AlreadyEnabled => "Already enabled"@,
        Report::AlreadyDisabled => "Already disabled"@,
        Report::Valid => "OK"@,
        Report::Blank => ""@,
    }
}

/// The colour of a report: red for failures, yellow for what needed no
/// work, green for success, bold for a blank cell.
pub open spec fn report_color(r: Report) -> Seq<char> {
    match r {
        Report::ServiceNotExists | Report::InvalidService | Report::CannotStart
        | Report::CannotStop | Report::CannotRestart | Report::CannotReload | Report::NotExists
        | Report::Invalid => RED@,
        Report::AlreadyRunning | Report::NotRunning | Report::Disabled | Report::AlreadyEnabled
        | Report::AlreadyDisabled => YELLOW@,
        Report::Blank => BOLD@,
        _ => GREEN@,
    }
}

impl Report {
    /// The text of the report.
    pub fn text(&self) -> (r: &'static str)
        ensures
            r@ == report_text(*self),
    {
        match self {
            Report::ServiceNotExists => "Service not exists",
            Report::InvalidService => "Invalid service",
            Report::AlreadyRunning => "Already running",
            Report::NotRunning => "Not running",
            Report::Started => "Started",
            Report::CannotStart => "Cannot start",
            Report::Stopped => "Stopped",
            Report::CannotStop => "Cannot stop",
            Report::Restarted => "Restarted",
            Report::CannotRestart => "Cannot restart",
            Report::Reloaded => "Reloaded",
            Report::CannotReload => "Cannot reload",
            Report::NotExists => "Not exists",
            Report::Invalid => "Invalid",
            Report::Enabled => "Enabled",
            Report::Disabled => "Disabled",
            Report::OneTime => "One time",
            Report::Running => "Running",
            Report::AlreadyEnabled => "Already enabled",
            Report::AlreadyDisabled => "Already disabled",
            Report::Valid => "OK",
            Report::Blank => "",
        }
    }

    /// The colour of the report.
    pub fn color(&self) -> (r: &'static str)
        ensures
            r@ == report_color(*self),
    {
        match self {
            Report::ServiceNotExists | Report::InvalidService | Report::CannotStart
            | Report::CannotStop | Report::CannotRestart | Report::CannotReload
            | Report::NotExists | Report::Invalid => RED,
            Report::AlreadyRunning | Report::NotRunning | Report::Disabled
            | Report::AlreadyEnabled | Report::AlreadyDisabled => YELLOW,
            Report::Blank => BOLD,
            _ => GREEN,
        }
    }
}

/// The descriptor of a valid service is one-time.
pub open spec fn one_time(meta: &Meta) -> bool {
    match meta.service {
        Some(s) => s.control.one_time,
        None => false,
    }
}

/// What `start` reports of a service before it asks the daemon: `None`
/// where it asks.
pub fn start(meta: &Meta) -> (r: Option<Report>)
    ensures
        r == (if !meta.exists {
            Some(Report::ServiceNotExists)
        } else if !meta.valid {
            Some(Report::InvalidService)
        } else if meta.running {
            Some(Report::AlreadyRunning)
        } else {
            None
        }),
{
    if !meta.exists {
        Some(Report::ServiceNotExists)
    } else if !meta.valid {
        Some(Report::InvalidService)
    } else if meta.running {
        Some(Report::AlreadyRunning)
    } else {
        None
    }
}

/// What `start` reports once the daemon answered: `None` where the daemon
/// is not running, which ends the command.
pub fn start_done(result: Result<(), Error>) -> (r: Option<Report>)
    ensures
        r == (match result {
            Ok(()) => Some(Report::Started),
            Err(Error::NoDaemon) => None,
            Err(_) => Some(Report::CannotStart),
        }),
{
    match result {
        Ok(()) => Some(Report::Started),
        Err(Error::NoDaemon) => None,
        Err(_) => Some(Report::CannotStart),
    }
}

/// What `stop` reports of a service before it asks the daemon: `None`
/// where it goes on. A one-time service is stopped even with no PID-file.
pub fn stop(meta: &Meta) -> (r: Option<Report>)
    ensures
        r == (if !meta.exists {
            Some(Report::ServiceNotExists)
        } else if !meta.valid {
            Some(Report::InvalidService)
        } else if !one_time(meta) && !meta.running {
            Some(Report::NotRunning)
        } else {
            None
        }),
{
    if !meta.exists {
        Some(Report::ServiceNotExists)
    } else if !meta.valid {
        Some(Report::InvalidService)
    } else {
        let once = match &meta.service {
            Some(s) => s.control.one_time,
            None => false,
        };
        if !once && !meta.running {
            Some(Report::NotRunning)
        } else {
            None
        }
    }
}

/// What `stop` reports once the stop action ran.
pub fn stop_done(result: Result<(), Error>) -> (r: Report)
    ensures
        r == (if result is Ok { Report::Stopped } else { Report::CannotStop }),
{
    if result.is_ok() {
        Report::Stopped
    } else {
        Report::CannotStop
    }
}

/// What `restart` and `reload` report of a service before they act:
/// `None` where they go on.
fn running_check(meta: &Meta) -> (r: Option<Report>)
    ensures
        r == (if !meta.exists {
            Some(Report::ServiceNotExists)
        } else if !meta.valid {
            Some(Report::InvalidService)
        } else if !meta.running {
            Some(Report::NotRunning)
        } else {
            None
        }),
{
    if !meta.exists {
        Some(Report::ServiceNotExists)
    } else if !meta.valid {
        Some(Report::InvalidService)
    } else if !meta.running {
        Some(Report::NotRunning)
    } else {
        None
    }
}

/// What `restart` reports of a service before it acts: `None` where it
/// goes on.
pub fn restart(meta: &Meta) -> (r: Option<Report>)
    ensures
        r == (if !meta.exists {
            Some(Report::ServiceNotExists)
        } else if !meta.valid {
            Some(Report::InvalidService)
        } else if !meta.running {
            Some(Report::NotRunning)
        } else {
            None
        }),
{
    running_check(meta)
}

/// What `reload` reports of a service before it acts: `None` where it goes
/// on.
pub fn reload(meta: &Meta) -> (r: Option<Report>)
    ensures
        r == (if !meta.exists {
            Some(Report::ServiceNotExists)
        } else if !meta.valid {
            Some(Report::InvalidService)
        } else if !meta.running {
            Some(Report::NotRunning)
        } else {
            None
        }),
{
    running_check(meta)
}

/// What `reload` reports once the reload action ran.
pub fn reload_done(result: Result<(), Error>) -> (r: Report)
    ensures
        r == (if result is Ok { Report::Reloaded } else { Report::CannotReload }),
{
    if result.is_ok() {
        Report::Reloaded
    } else {
        Report::CannotReload
    }
}

/// What `enable` reports of a service before it links it: `None` where it
/// links.
pub fn enable(meta: &Meta) -> (r: Option<Report>)
    ensures
        r == (if !meta.exists {
            Some(Report::ServiceNotExists)
        } else if !meta.valid {
            Some(Report::InvalidService)
        } else if meta.enabled {
            Some(Report::AlreadyEnabled)
        } else {
            None
        }),
{
    if !meta.exists {
        Some(Report::ServiceNotExists)
    } else if !meta.valid {
        Some(Report::InvalidService)
    } else if meta.enabled {
        Some(Report::AlreadyEnabled)
    } else {
        None
    }
}

/// What `disable` reports of a service before it unlinks it: `None` where
/// it unlinks.
pub fn disable(meta: &Meta) -> (r: Option<Report>)
    ensures
        r == (if !meta.exists {
            Some(Report::ServiceNotExists)
        } else if !meta.enabled {
            Some(Report::AlreadyDisabled)
        } else {
            None
        }),
{
    if !meta.exists {
        Some(Report::ServiceNotExists)
    } else if !meta.enabled {
        Some(Report::AlreadyDisabled)
    } else {
        None
    }
}

/// The row that `check` shows of a descriptor file.
pub open spec fn check_line(confdir: Seq<char>, name: Seq<char>, valid: bool) -> Seq<Seq<char>> {
    let r = if valid { Report::Valid } else { Report::Invalid };
    seq![
        cell(confdir + "/"@, crate::table::MUTED@) + cell(name, BOLD@) + cell(".toml"@, crate::table::MUTED@),
        cell(report_text(r), report_color(r)),
    ]
}

/// The table of `check` without a service name: each descriptor file of
/// `names` under `confdir`, and whether it is valid.
pub fn check(confdir: &str, names: &Vec<String>, valid: &Vec<bool>) -> (r: Table)
    requires
        names.len() == valid.len(),
        forall|i: int| 0 <= i < names.len() ==> confdir@.len() + 1 + (#[trigger] names[i])@.len() + 5 <= usize::MAX,
    ensures
        r.wf(),
        r.rows().len() == names.len(),
        forall|i: int| 0 <= i < names.len() ==> #[trigger] r.rows()[i] == check_line(confdir@, names[i]@, valid[i]),
{
    let mut table = Table::new();
    let dir = String::from_str(confdir).concat("/");
    let mut i: usize = 0;
    while i < names.len()
        invariant
            names.len() == valid.len(),
            forall|i: int| 0 <= i < names.len() ==> confdir@.len() + 1 + (#[trigger] names[i])@.len() + 5 <= usize::MAX,
            dir@ == confdir@ + "/"@,
            i <= names.len(),
            table.wf(),
            table.rows().len() == i,
            forall|k: int| 0 <= k < i ==> #[trigger] table.rows()[k] == check_line(confdir@, names[k]@, valid[k]),
        decreases names.len() - i,
    {
        let r = if valid[i] {
            Report::Valid
        } else {
            Report::Invalid
        };
        proof {
            reveal_strlit("/");
            reveal_strlit(".toml");
        }
        let ghost before = table.rows();
        table.ppfirst(dir.as_str(), names[i].as_str(), ".toml");
        table.field(r.text(), r.color());
        assert(table.rows()[i as int] =~= check_line(confdir@, names[i as int]@, valid[i as int]));
        assert forall|k: int| 0 <= k < i implies #[trigger] table.rows()[k] == before[k] by {}
        i = i + 1;
    }
    table
}

/// The next step of `restart` after the descriptor's restart action.
#[derive(PartialEq, Eq, Structural, Clone, Copy, Debug)]
pub enum RestartNext {
    Report(Report),
    /// Stop, wait for the PID-file to go, start.
    Fallback,
}

/// The next step of `restart` after the descriptor's restart action gave
/// `result`: the fallback only where the descriptor had no restart action.
pub open spec fn restart_next(result: Result<(), Error>) -> RestartNext {
    match result {
        Ok(()) => RestartNext::Report(Report::Restarted),
        Err(Error::NotFound) => RestartNext::Fallback,
        Err(_) => RestartNext::Report(Report::CannotRestart),
    }
}

/// The next step of `restart` after the descriptor's restart action.
pub fn restart_done(result: Result<(), Error>) -> (r: RestartNext)
    ensures
        r == restart_next(result),
{
    match result {
        Ok(()) => RestartNext::Report(Report::Restarted),
        Err(Error::NotFound) => RestartNext::Fallback,
        Err(_) => RestartNext::Report(Report::CannotRestart),
    }
}

/// What the fallback of `restart` reports after its stop: `None` where it
/// goes on to wait and start.
pub fn restart_stopped(result: Result<(), Error>) -> (r: Option<Report>)
    ensures
        r == (if result is Ok { None } else { Some(Report::CannotStop) }),
{
    if result.is_ok() {
        None
    } else {
        Some(Report::CannotStop)
    }
}

/// What the fallback of `restart` reports after its start.
pub fn restart_started(result: Result<(), Error>) -> (r: Report)
    ensures
        r == (if result is Ok { Report::Restarted } else { Report::CannotStart }),
{
    if result.is_ok() {
        Report::Restarted
    } else {
        Report::CannotStart
    }
}

/// The outcome of carrying out an action: what running a command or
/// sending a signal can give.
pub open spec fn action_outcome(result: Result<(), Error>) -> bool {
    result == Ok::<(), Error>(()) || result == Err::<(), Error>(Error::CannotSpawn) || result
        == Err::<(), Error>(Error::CannotKill)
}

/// `restart` falls back to stop, wait and start exactly where the
/// descriptor gives neither a restart command nor a restart signal: where
/// it gives one, whatever carrying it out gave, no fallback follows.
pub proof fn lemma_restart_fallback(service: &Service, pid: i32, performed: Result<(), Error>)
    requires
        action_outcome(performed),
    ensures
        ({
            let result = match restart_spec(service, pid) {
                Ok(_) => performed,
                Err(e) => Err(e),
            };
            (restart_next(result) == RestartNext::Fallback) <==> (service.process.restart_cmd is None
                && service.process.restart_sig is None)
        }),
{
}

/// The two cells that `status` shows of a service.
pub open spec fn status_cells(meta: &Meta) -> (Report, Report) {
    if !meta.exists {
        (Report::NotExists, Report::Blank)
    } else if !meta.valid {
        (Report::Invalid, Report::Blank)
    } else {
        (
            if meta.enabled { Report::Enabled } else { Report::Disabled },
            if one_time(meta) {
                Report::OneTime
            } else if meta.running {
                Report::Running
            } else {
                Report::NotRunning
            },
        )
    }
}

/// The two cells that `status` shows of a service.
pub fn status_row(meta: &Meta) -> (r: (Report, Report))
    ensures
        r == status_cells(meta),
{
    if !meta.exists {
        (Report::NotExists, Report::Blank)
    } else if !meta.valid {
        (Report::Invalid, Report::Blank)
    } else {
        let first = if meta.enabled {
            Report::Enabled
        } else {
            Report::Disabled
        };
        let once = match &meta.service {
            Some(s) => s.control.one_time,
            None => false,
        };
        let second = if once {
            Report::OneTime
        } else if meta.running {
            Report::Running
        } else {
            Report::NotRunning
        };
        (first, second)
    }
}

/// The row that `status` shows of a service.
pub open spec fn status_line(name: Seq<char>, meta: &Meta) -> Seq<Seq<char>> {
    let (a, b) = status_cells(meta);
    seq![cell(name, BOLD@), cell(report_text(a), report_color(a)), cell(report_text(b), report_color(b))]
}

/// The status table of the services `names`, whose views are `metas`, one
/// row each, in the order given.
pub fn status(names: &Vec<String>, metas: &Vec<Meta>) -> (r: Table)
    requires
        names.len() == metas.len(),
    ensures
        r.wf(),
        r.rows().len() == names.len(),
        forall|i: int| 0 <= i < names.len() ==> #[trigger] r.rows()[i] == status_line(names[i]@, &metas[i]),
{
    let mut table = Table::new();
    let mut i: usize = 0;
    while i < names.len()
        invariant
            names.len() == metas.len(),
            i <= names.len(),
            table.wf(),
            table.rows().len() == i,
            forall|k: int| 0 <= k < i ==> #[trigger] table.rows()[k] == status_line(names[k]@, &metas[k]),
        decreases names.len() - i,
    {
        let (a, b) = status_row(&metas[i]);
        let ghost before = table.rows();
        table.first(names[i].as_str());
        table.field(a.text(), a.color());
        table.field(b.text(), b.color());
        assert(table.rows()[i as int] =~= status_line(names[i as int]@, &metas[i as int]));
        assert forall|k: int| 0 <= k < i implies #[trigger] table.rows()[k] == before[k] by {}
        i = i + 1;
    }
    table
}

/// `acc` followed by the names of `more` that it does not hold yet, each
/// once, in order.
pub open spec fn append_missing(acc: Seq<Seq<char>>, more: Seq<Seq<char>>) -> Seq<Seq<char>>
    decreases more.len(),
{
    if more.len() == 0 {
        acc
    } else {
        let a = append_missing(acc, more.drop_last());
        if a.contains(more.last()) {
            a
        } else {
            a.push(more.last())
        }
    }
}

/// The services that stop-all considers: the enabled ones, then those with
/// a PID-file that are not enabled.
pub fn stop_all_names(enabled: &Vec<String>, running: &Vec<String>) -> (r: Vec<String>)
    ensures
        crate::order::names_of(r@) == append_missing(
            crate::order::names_of(enabled@),
            crate::order::names_of(running@),
        ),
{
    let mut r = crate::service::clone_argv(enabled);
    let mut i: usize = 0;
    while i < running.len()
        invariant
            i <= running.len(),
            crate::order::names_of(r@) == append_missing(
                crate::order::names_of(enabled@),
                crate::order::names_of(running@).subrange(0, i as int),
            ),
        decreases running.len() - i,
    {
        let ghost before = crate::order::names_of(r@);
        let mut found = false;
        let mut k: usize = 0;
        while k < r.len()
            invariant
                k <= r.len(),
                before == crate::order::names_of(r@),
                found == exists|k2: int| 0 <= k2 < k && #[trigger] r@[k2]@ == running@[i as int]@,
                i < running.len(),
            decreases r.len() - k,
        {
            if r[k] == running[i] {
                found = true;
            }
            k = k + 1;
        }
        let ghost more = crate::order::names_of(running@).subrange(0, i + 1);
        assert(more.drop_last() =~= crate::order::names_of(running@).subrange(0, i as int));
        assert(found == before.contains(running@[i as int]@)) by {
            if found {
                let k2 = choose|k2: int| 0 <= k2 < r.len() && #[trigger] r@[k2]@ == running@[i as int]@;
                assert(before[k2] == running@[i as int]@);
            }
            if before.contains(running@[i as int]@) {
                let k2 = choose|k2: int| 0 <= k2 < before.len() && before[k2] == running@[i as int]@;
                assert(r@[k2]@ == running@[i as int]@);
            }
        }
        if !found {
            r.push(running[i].clone());
            assert(crate::order::names_of(r@) =~= before.push(running@[i as int]@));
        }
        i = i + 1;
    }
    assert(crate::order::names_of(running@).subrange(0, running@.len() as int) =~= crate::order::names_of(running@));
    r
}

/// Whether stop-all stops a service: a valid one that is one-time or runs.
pub fn stop_all_wants(meta: &Meta) -> (r: bool)
    ensures
        r == (meta.valid && (one_time(meta) || meta.running)),
{
    if !meta.valid {
        return false;
    }
    let once = match &meta.service {
        Some(s) => s.control.one_time,
        None => false,
    };
    once || meta.running
}

} // verus!
