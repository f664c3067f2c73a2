//! How many parallel jobs a build is given.

use vstd::prelude::*;

verus! {

/// `num_cpus::get` reports the number of logical processors, which is at
/// least one.
pub assume_specification[ num_cpus::get ]() -> (cpus: usize)
    ensures
        cpus >= 1,
;

/// The jobs that a build is given by default on a machine with so many
/// processors: all but one of them, and at least one.
pub open spec fn default_jobs(processors: nat) -> nat {
    if processors >= 2 {
        (processors - 1) as nat
    } else {
        1
    }
}

/// The jobs that a build is given by default on a machine with so many
/// processors.
pub fn default_cores(max_cores: usize) -> (cores: usize)
    ensures
        cores == default_jobs(max_cores as nat),
        1 <= cores,
        max_cores >= 1 ==> cores <= max_cores,
{
    if max_cores >= 2 {
        max_cores - 1
    } else {
        1
    }
}

/// The jobs asked for, held to what the machine has: at least one, and no
/// more than there are processors.
pub fn clamp_cores(requested: usize, max_cores: usize) -> (cores: usize)
    ensures
        cores == if requested < 1 || max_cores < 1 {
            1
        } else if requested > max_cores {
            max_cores
        } else {
            requested
        },
{
    if requested < 1 || max_cores < 1 {
        1
    } else if requested > max_cores {
        max_cores
    } else {
        requested
    }
}

/// The processors of this machine and the jobs that a build is given by
/// default. Whatever the machine, the default is at least one job and no
/// more than there are processors.
pub fn detect_cores() -> (found: (usize, usize))
    ensures
        found.0 >= 1,
        found.1 == default_jobs(found.0 as nat),
        1 <= found.1 <= found.0,
{
    let max_cores = num_cpus::get();
    (max_cores, default_cores(max_cores))
}

} // verus!
