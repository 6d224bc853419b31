//! What can stop a run. Each of these is final: nothing is tried again.

use vstd::prelude::*;
use crate::request::ComputeError;

verus! {

#[derive(Clone, Copy, Debug, PartialEq, Eq, Structural)]
pub enum BenchError {
    /// The thread could not be pinned to `core`; `errno` is the system's
    /// error number.
    Bind { core: usize, errno: i32 },
    /// A channel's other side was gone while it was still needed.
    Channel,
    /// A request had no accepted answer.
    Verification(ComputeError),
    /// A counter of solved requests had no room for one more.
    CountOverflow,
}

} // verus!
