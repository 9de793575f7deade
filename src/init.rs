use crate::protocol::{find_space, lemma_next_space_bounds, next_space, same_chars};
use crate::service::SIGTERM;
use vstd::prelude::*;
use vstd::string::*;

verus! {

/// What the init binary does: run the machine's lifecycle as process 1,
/// or ask process 1 to halt or to reboot.
#[derive(PartialEq, Eq, Structural, Clone, Copy, Debug)]
pub enum Mode {
    Definite,
    Halt,
    Reboot,
}

/// The index just past the last `/` in `s` before `end`, or 0.
pub open spec fn after_last_slash(s: Seq<char>, end: int) -> int
    decreases end,
{
    if end <= 0 {
        0
    } else if s[end - 1] == '/' {
        end
    } else {
        after_last_slash(s, end - 1)
    }
}

/// What follows the last `/` of `s`: the whole of `s` where it has none.
pub open spec fn basename_spec(s: Seq<char>) -> Seq<char> {
    s.subrange(after_last_slash(s, s.len() as int), s.len() as int)
}

proof fn lemma_after_last_slash_bounds(s: Seq<char>, end: int)
    requires
        0 <= end <= s.len(),
    ensures
        0 <= after_last_slash(s, end) <= end,
    decreases end,
{
    if end > 0 && s[end - 1] != '/' {
        lemma_after_last_slash_bounds(s, end - 1);
    }
}

/// What follows the last `/` of a path.
pub fn basename(s: &str) -> (r: &str)
    ensures
        r@ == basename_spec(s@),
{
    let n = s.unicode_len();
    let mut i = n;
    while i > 0 && s.get_char(i - 1) != '/'
        invariant
            i <= n,
            n == s@.len(),
            after_last_slash(s@, n as int) == after_last_slash(s@, i as int),
        decreases i,
    {
        i = i - 1;
    }
    s.substring_char(i, n)
}

/// The mode that one argument selects by its base name.
pub open spec fn mode_of(arg: Seq<char>) -> Mode {
    if basename_spec(arg) == "halt"@ {
        Mode::Halt
    } else if basename_spec(arg) == "reboot"@ {
        Mode::Reboot
    } else {
        Mode::Definite
    }
}

/// The mode selected by the program name and the first argument: the first
/// of the two whose base name is `halt` or `reboot`, else `Definite`.
pub open spec fn mode_spec(args: Seq<String>) -> Mode {
    if args.len() > 0 && mode_of(args[0]@) != Mode::Definite {
        mode_of(args[0]@)
    } else if args.len() > 1 {
        mode_of(args[1]@)
    } else {
        Mode::Definite
    }
}

fn arg_mode(arg: &str) -> (r: Mode)
    ensures
        r == mode_of(arg@),
{
    let b = basename(arg);
    if same_chars(b, "halt") {
        Mode::Halt
    } else if same_chars(b, "reboot") {
        Mode::Reboot
    } else {
        Mode::Definite
    }
}

/// The mode selected by the command line `args`, program name first.
pub fn mode(args: &Vec<String>) -> (r: Mode)
    ensures
        r == mode_spec(args@),
{
    if args.len() > 0 {
        let m = arg_mode(args[0].as_str());
        if m != Mode::Definite {
            return m;
        }
    }
    if args.len() > 1 {
        arg_mode(args[1].as_str())
    } else {
        Mode::Definite
    }
}

/// The kernel's code for a restart.
pub const REBOOT_RESTART: i32 = 0x01234567;

/// The kernel's code for a power-off.
pub const REBOOT_POWER_OFF: i32 = 0x4321FEDC;

/// Relies on libc::LINUX_REBOOT_CMD_RESTART, 0x01234567.
#[verifier::external_body]
fn linux_reboot_restart() -> (r: i32)
    ensures
        r == REBOOT_RESTART,
{
    libc::LINUX_REBOOT_CMD_RESTART
}

/// Relies on libc::LINUX_REBOOT_CMD_POWER_OFF, 0x4321FEDC.
#[verifier::external_body]
fn linux_reboot_power_off() -> (r: i32)
    ensures
        r == REBOOT_POWER_OFF,
{
    libc::LINUX_REBOOT_CMD_POWER_OFF
}

/// The kernel directive that a stop request by `signal` schedules: power-off
/// on the terminate signal, restart on any other.
pub fn reboot_command(signal: i32) -> (r: i32)
    ensures
        r == (if signal == SIGTERM { REBOOT_POWER_OFF } else { REBOOT_RESTART }),
{
    if signal == crate::service::sigterm() {
        linux_reboot_power_off()
    } else {
        linux_reboot_restart()
    }
}

/// The directive in force before any stop request: restart.
pub fn initial_reboot_command() -> (r: i32)
    ensures
        r == REBOOT_RESTART,
{
    linux_reboot_restart()
}

/// The mount point of a line of the mount table: its second field, where
/// the line has a space.
pub open spec fn mount_point_spec(line: Seq<char>) -> Option<Seq<char>> {
    let a = next_space(line, 0);
    if a >= line.len() {
        None
    } else {
        Some(line.subrange(a + 1, next_space(line, a + 1)))
    }
}

/// The mount point of a line of the mount table.
pub fn mount_point(line: &str) -> (r: Option<String>)
    ensures
        match (r, mount_point_spec(line@)) {
            (Some(x), Some(y)) => x@ == y,
            (None, None) => true,
            _ => false,
        },
{
    proof {
        lemma_next_space_bounds(line@, 0);
    }
    let n = line.unicode_len();
    let a = find_space(line, 0);
    if a >= n {
        return None;
    }
    proof {
        lemma_next_space_bounds(line@, a + 1);
    }
    let b = find_space(line, a + 1);
    Some(String::from_str(line.substring_char(a + 1, b)))
}

} // verus!
