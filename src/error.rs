use vstd::prelude::*;

verus! {

/// The error kinds surfaced by the service layer.
#[derive(PartialEq, Eq, Structural, Clone, Copy, Debug)]
pub enum Error {
    CannotSpawn,
    CannotKill,
    NotFound,
    NoDaemon,
}

} // verus!
