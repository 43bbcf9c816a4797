//! What a finished command hands back.

use vstd::prelude::*;

verus! {

/// Exit code, captured output and success flag of a command run to
/// completion (`code` is -1 when the process could not be run or was killed
/// by a signal).
pub struct Output {
    pub code: i32,
    pub stdout: String,
    pub stderr: String,
    pub ok: bool,
}

} // verus!
