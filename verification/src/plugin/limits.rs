//! Limits on what a plugin may write.
use vstd::prelude::*;

verus! {

/// The most bytes a plugin may write to stdout and to stderr.
#[derive(Clone, Copy, Debug)]
pub struct TransportLimits {
    pub stdout_max: usize,
    pub stderr_max: usize,
}

impl Default for TransportLimits {
    /// 16 MiB of stdout and 4 MiB of stderr.
    fn default() -> (r: Self)
        ensures
            r.stdout_max == 16 * 1024 * 1024,
            r.stderr_max == 4 * 1024 * 1024,
    {
        TransportLimits { stdout_max: 16 * 1024 * 1024, stderr_max: 4 * 1024 * 1024 }
    }
}

} // verus!
