//! The number of CPUs that the load is measured against.

use vstd::prelude::*;

verus! {

/// The divisor for a reported count of CPUs: the count itself, and one where
/// none was reported.
pub open spec fn at_least_one(reported: usize) -> usize {
    if reported == 0 {
        1
    } else {
        reported
    }
}

/// Guards the CPU count against zero, so that a load can always be divided
/// by it.
pub fn guard_cpu_count(reported: usize) -> (count: usize)
    ensures
        count == at_least_one(reported),
        count >= 1,
{
    if reported == 0 {
        1
    } else {
        reported
    }
}

/// The number of logical CPUs available to this process, never below one.
pub fn cpu_count() -> (count: usize)
    ensures
        count >= 1,
{
    guard_cpu_count(logical_cpus())
}

/// `num_cpus::get`: the number of logical CPUs that the system reports as
/// available. Nothing is claimed of the number: it depends on the machine,
/// and on some systems it is handed on as the system gave it.
#[verifier::external_body]
fn logical_cpus() -> usize {
    num_cpus::get()
}

} // verus!
