//! Which handles a scheduler gives, by the kind that the configuration selects.
//!
//! The schedulers themselves are built elsewhere. What is decided here is what the
//! program may expect of the one it builds: every scheduler takes actions, and only
//! the one that runs in this process also takes workers.

use vstd::prelude::*;

verus! {

/// The kinds of scheduler that a configuration can select.
#[derive(Clone, Copy, Debug, PartialEq, Eq, Structural)]
pub enum SchedulerConfig {
    /// A scheduler of its own, which runs in this process.
    Simple,
    /// A scheduler that passes everything on to a remote one.
    Grpc,
    /// A scheduler that looks in the action cache first and passes the rest on to
    /// another scheduler of this process.
    CacheLookup,
}

/// The handles that a scheduler gives.
#[derive(Clone, Copy, Debug, PartialEq, Eq, Structural)]
pub struct SchedulerFactoryResults {
    /// Whether it gives a handle for scheduling actions.
    pub action_scheduler: bool,
    /// Whether it gives a handle for scheduling workers.
    pub worker_scheduler: bool,
}

/// The handles that the scheduler of kind `scheduler_type_cfg` gives.
pub fn scheduler_factory(scheduler_type_cfg: &SchedulerConfig) -> (handles: SchedulerFactoryResults)
    ensures
        handles.action_scheduler,
        handles.worker_scheduler == (*scheduler_type_cfg == SchedulerConfig::Simple),
{
    match scheduler_type_cfg {
        SchedulerConfig::Simple => SchedulerFactoryResults {
            action_scheduler: true,
            worker_scheduler: true,
        },
        SchedulerConfig::Grpc => SchedulerFactoryResults {
            action_scheduler: true,
            worker_scheduler: false,
        },
        SchedulerConfig::CacheLookup => SchedulerFactoryResults {
            action_scheduler: true,
            worker_scheduler: false,
        },
    }
}

} // verus!
