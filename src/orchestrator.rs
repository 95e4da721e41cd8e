use vstd::prelude::*;

verus! {

/// How long the agent waits before a reset, so that its log can be read, in seconds.
pub const FAILURE_STALL_SECONDS: u64 = 5;

/// The longer wait before the reset that follows a failed boot-entry update.
pub const BOOT_ENTRY_FAILURE_STALL_SECONDS: u64 = 10;

/// The platform reset that ends a run.
#[derive(Debug, Clone, Copy, PartialEq, Eq, Structural)]
pub struct ResetRequest {
    /// The run succeeded: reboot into the secured platform.
    pub success: bool,
    /// Seconds to wait before resetting.
    pub stall_seconds: u64,
}

/// The step a run performs next.
#[derive(Debug, Clone, Copy, PartialEq, Eq, Structural)]
pub enum RunStep {
    /// Bring up the network interface.
    BringUpNetwork,
    /// Find the provisioning server over DHCP/PXE.
    DiscoverServer,
    /// Read `SetupMode`.
    CheckSetupMode,
    /// Enroll PK, KEK and db.
    EnrollKeys,
    /// Register the network boot entry.
    AddBootEntry,
    /// Stop: reset the platform.
    Reset(ResetRequest),
}

/// The step after `step` succeeded (`ok`) or failed. Without a network or a server the
/// run cannot go on. Keys are enrolled only in setup mode, and a successful enrollment
/// reboots at once; otherwise the run registers the boot entry and resets, waiting
/// longer when that failed.
pub open spec fn next_step_spec(step: RunStep, ok: bool) -> RunStep {
    match step {
        RunStep::BringUpNetwork => if ok {
            RunStep::DiscoverServer
        } else {
            RunStep::Reset(ResetRequest { success: false, stall_seconds: FAILURE_STALL_SECONDS })
        },
        RunStep::DiscoverServer => if ok {
            RunStep::CheckSetupMode
        } else {
            RunStep::Reset(ResetRequest { success: false, stall_seconds: FAILURE_STALL_SECONDS })
        },
        RunStep::CheckSetupMode => if ok {
            RunStep::EnrollKeys
        } else {
            RunStep::AddBootEntry
        },
        RunStep::EnrollKeys => if ok {
            RunStep::Reset(ResetRequest { success: true, stall_seconds: 0 })
        } else {
            RunStep::AddBootEntry
        },
        RunStep::AddBootEntry => if ok {
            RunStep::Reset(ResetRequest { success: false, stall_seconds: FAILURE_STALL_SECONDS })
        } else {
            RunStep::Reset(
                ResetRequest { success: false, stall_seconds: BOOT_ENTRY_FAILURE_STALL_SECONDS },
            )
        },
        RunStep::Reset(_) => step,
    }
}

/// The steps run from `step` given the outcome of each.
pub open spec fn run_spec(step: RunStep, outcomes: Seq<bool>) -> RunStep
    decreases outcomes.len(),
{
    if outcomes.len() == 0 {
        step
    } else {
        run_spec(next_step_spec(step, outcomes[0]), outcomes.subrange(1, outcomes.len() as int))
    }
}

/// A run that has reset stays reset.
proof fn lemma_reset_stays(r: ResetRequest, outcomes: Seq<bool>)
    ensures
        run_spec(RunStep::Reset(r), outcomes) == RunStep::Reset(r),
    decreases outcomes.len(),
{
    if outcomes.len() > 0 {
        lemma_reset_stays(r, outcomes.subrange(1, outcomes.len() as int));
    }
}

/// Every run ends in a reset within five steps, whatever their outcomes; key enrollment
/// is reached only from a `SetupMode` check that found setup mode; and a reset reports
/// success only right after the keys were enrolled.
pub proof fn lemma_run_shape(step: RunStep, ok: bool, outcomes: Seq<bool>)
    requires
        outcomes.len() >= 5,
    ensures
        run_spec(RunStep::BringUpNetwork, outcomes) is Reset,
        next_step_spec(step, ok) == RunStep::EnrollKeys <==> (step == RunStep::CheckSetupMode && ok),
        (next_step_spec(step, ok) matches RunStep::Reset(r) && r.success) <==> (step
            == RunStep::EnrollKeys && ok) || (step matches RunStep::Reset(r0) && r0.success),
{
    let o = outcomes;
    let s1 = next_step_spec(RunStep::BringUpNetwork, o[0]);
    let t1 = o.subrange(1, o.len() as int);
    let s2 = next_step_spec(s1, t1[0]);
    let t2 = t1.subrange(1, t1.len() as int);
    let s3 = next_step_spec(s2, t2[0]);
    let t3 = t2.subrange(1, t2.len() as int);
    let s4 = next_step_spec(s3, t3[0]);
    let t4 = t3.subrange(1, t3.len() as int);
    let s5 = next_step_spec(s4, t4[0]);
    let t5 = t4.subrange(1, t4.len() as int);
    assert(s5 is Reset);
    lemma_reset_stays(s5->Reset_0, t5);
    assert(run_spec(s4, t4) == run_spec(s5, t5));
    assert(run_spec(s3, t3) == run_spec(s4, t4));
    assert(run_spec(s2, t2) == run_spec(s3, t3));
    assert(run_spec(s1, t1) == run_spec(s2, t2));
    assert(run_spec(RunStep::BringUpNetwork, o) == run_spec(s1, t1));
}

/// The step after `step` succeeded (`ok`) or failed.
pub fn next_step(step: RunStep, ok: bool) -> (r: RunStep)
    ensures
        r == next_step_spec(step, ok),
{
    match step {
        RunStep::BringUpNetwork => if ok {
            RunStep::DiscoverServer
        } else {
            RunStep::Reset(ResetRequest { success: false, stall_seconds: FAILURE_STALL_SECONDS })
        },
        RunStep::DiscoverServer => if ok {
            RunStep::CheckSetupMode
        } else {
            RunStep::Reset(ResetRequest { success: false, stall_seconds: FAILURE_STALL_SECONDS })
        },
        RunStep::CheckSetupMode => if ok {
            RunStep::EnrollKeys
        } else {
            RunStep::AddBootEntry
        },
        RunStep::EnrollKeys => if ok {
            RunStep::Reset(ResetRequest { success: true, stall_seconds: 0 })
        } else {
            RunStep::AddBootEntry
        },
        RunStep::AddBootEntry => if ok {
            RunStep::Reset(ResetRequest { success: false, stall_seconds: FAILURE_STALL_SECONDS })
        } else {
            RunStep::Reset(
                ResetRequest { success: false, stall_seconds: BOOT_ENTRY_FAILURE_STALL_SECONDS },
            )
        },
        RunStep::Reset(_) => step,
    }
}

} // verus!
