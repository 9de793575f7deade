use vstd::prelude::*;

verus! {

/// The child ended through `exit`.
pub open spec fn exited(status: i32) -> bool {
    status & 0x7f == 0
}

/// The exit code of a child that ended through `exit`.
pub open spec fn exit_code(status: i32) -> i32 {
    (status >> 8) & 0xff
}

/// The child was ended by a signal.
pub open spec fn signaled(status: i32) -> bool {
    1 <= status & 0x7f <= 126
}

/// The signal that ended the child produced a core dump.
pub open spec fn core_dumped(status: i32) -> bool {
    status & 0x80 != 0
}

/// A dirty exit: a non-zero exit code, or a signal that dumped core.
pub open spec fn is_dirty_spec(status: i32) -> bool {
    if exited(status) {
        exit_code(status) != 0
    } else if signaled(status) {
        core_dumped(status)
    } else {
        false
    }
}

/// Relies on libc::WIFEXITED: the low seven bits of the status are zero.
#[verifier::external_body]
fn wifexited(status: i32) -> (r: bool)
    ensures
        r == exited(status),
{
    libc::WIFEXITED(status)
}

/// Relies on libc::WEXITSTATUS: bits eight to fifteen of the status.
#[verifier::external_body]
fn wexitstatus(status: i32) -> (r: i32)
    ensures
        r == exit_code(status),
{
    libc::WEXITSTATUS(status)
}

/// Relies on libc::WIFSIGNALED: `((status & 0x7f) + 1) as i8 >= 2`, that is
/// the low seven bits lie in 1..=126.
#[verifier::external_body]
fn wifsignaled(status: i32) -> (r: bool)
    ensures
        r == signaled(status),
{
    libc::WIFSIGNALED(status)
}

/// Relies on libc::WCOREDUMP: bit seven of the status.
#[verifier::external_body]
fn wcoredump(status: i32) -> (r: bool)
    ensures
        r == core_dumped(status),
{
    libc::WCOREDUMP(status)
}

/// Classifies a wait status as returned by `wait(2)`.
pub fn is_dirty(status: i32) -> (r: bool)
    ensures
        r == is_dirty_spec(status),
{
    if wifexited(status) {
        wexitstatus(status) != 0
    } else if wifsignaled(status) {
        wcoredump(status)
    } else {
        false
    }
}

} // verus!
