//! A builder used to create a new worker pool.
//!
//! Only the plain configuration values live here: the thread count, the
//! optional stack size and the optional fixed thread name. The hook
//! closures and the launch itself (spawning operating-system threads) are
//! the glue around the verified core.

use vstd::prelude::*;

verus! {

/// Relies on num_cpus::get_physical: the number of physical CPU cores,
/// which is documented to always be at least 1.
#[verifier::external_body]
fn physical_cores() -> (r: usize)
    ensures
        r >= 1,
{
    num_cpus::get_physical()
}

/// The default thread count of a pool on a machine with `cores` physical
/// CPU cores: twice the cores, saturated at the machine limit.
pub fn default_threads(cores: usize) -> (t: usize)
    ensures
        cores > usize::MAX / 2 ==> t == usize::MAX,
        cores <= usize::MAX / 2 ==> t == 2 * cores,
{
    if cores > usize::MAX / 2 {
        usize::MAX
    } else {
        cores * 2
    }
}

/// The configuration of a pool before it is launched.
///
/// The pool uses by default twice as many threads as the CPU has physical
/// cores.
pub struct WorkerPoolBuilder {
    /// How many worker threads the pool will start.
    pub threads: usize,
    /// The stack size of each worker thread, if not the platform default.
    pub stack_size: Option<usize>,
    /// The fixed name given to the worker threads, if any.
    pub name: Option<String>,
}

impl WorkerPoolBuilder {
    /// Creates a new builder with the default thread count: twice the
    /// machine's physical cores (`default_threads` fixes the computation;
    /// the core count itself is the machine's).
    pub fn new() -> (r: Self)
        ensures
            r.threads >= 2,
            r.stack_size is None,
            r.name is None,
    {
        let threads = default_threads(physical_cores());
        WorkerPoolBuilder { threads, stack_size: None, name: None }
    }

    /// Sets the number of threads to use.
    pub fn threads(&mut self, threads: usize) -> (r: &mut Self)
        ensures
            *r == (WorkerPoolBuilder { threads, ..*old(self) }),
            *final(self) == *final(r),
    {
        self.threads = threads;
        self
    }

    /// Sets the name of the threads of the worker pool.
    pub fn set_name(&mut self, name: String) -> (r: &mut Self)
        ensures
            *r == (WorkerPoolBuilder { name: Some(name), ..*old(self) }),
            *final(self) == *final(r),
    {
        self.name = Some(name);
        self
    }
}

} // verus!
