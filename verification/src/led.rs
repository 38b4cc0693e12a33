//! The LED request flag and the actuator's poll decision.

use vstd::prelude::*;

verus! {

/// Delay after a toggle before the actuator polls again, in milliseconds.
pub const SETTLE_MS: u64 = 50;

/// Delay between polls while nothing is requested, in milliseconds.
pub const IDLE_MS: u64 = 10;

/// A single pending-toggle flag between the display task, which raises it,
/// and the LED task, which services and clears it. It holds at most one
/// request: raising a raised flag changes nothing.
#[derive(Clone, Copy, Debug)]
pub struct LedFlag {
    raised: bool,
}

/// What the actuator does after one look at the flag.
#[derive(Clone, Copy, Debug, PartialEq, Eq, Structural)]
pub struct LedStep {
    /// Whether to toggle the LED once.
    pub toggle: bool,
    /// How long to wait before the next poll, in milliseconds.
    pub wait_ms: u64,
}

/// The flag after `requests` requests on a flag that was `pending`.
pub open spec fn raised_after(pending: bool, requests: nat) -> bool {
    pending || requests > 0
}

/// Number of hardware toggles that `polls` polls in a row perform on a flag
/// that starts out as `pending` and that nobody raises in between.
pub open spec fn toggles_over(pending: bool, polls: nat) -> nat
    decreases polls,
{
    if polls == 0 {
        0
    } else if pending {
        1 + toggles_over(false, (polls - 1) as nat)
    } else {
        toggles_over(false, (polls - 1) as nat)
    }
}

impl LedFlag {
    /// Whether a toggle is requested and not yet serviced.
    pub closed spec fn pending(&self) -> bool {
        self.raised
    }

    /// A flag with no request pending.
    pub fn new() -> (flag: Self)
        ensures
            !flag.pending(),
    {
        LedFlag { raised: false }
    }

    /// A flag in the given state, as read from shared storage.
    pub fn from_bool(raised: bool) -> (flag: Self)
        ensures
            flag.pending() == raised,
    {
        LedFlag { raised }
    }

    /// Whether a request is pending.
    pub fn is_pending(&self) -> (yes: bool)
        ensures
            yes == self.pending(),
    {
        self.raised
    }

    /// Request one toggle. A request that is already pending absorbs it.
    pub fn request(&mut self)
        ensures
            final(self).pending() == raised_after(old(self).pending(), 1),
    {
        self.raised = true;
    }

    /// One poll of the actuator. With a request pending: toggle once, clear
    /// the flag, and wait the settle delay. Without: wait the idle delay.
    pub fn poll(&mut self) -> (step: LedStep)
        ensures
            step.toggle == (toggles_over(old(self).pending(), 1) == 1),
            step.toggle == old(self).pending(),
            step.wait_ms == if old(self).pending() { SETTLE_MS } else { IDLE_MS },
            !final(self).pending(),
    {
        proof {
            reveal_with_fuel(toggles_over, 2);
        }
        if self.raised {
            self.raised = false;
            LedStep { toggle: true, wait_ms: SETTLE_MS }
        } else {
            LedStep { toggle: false, wait_ms: IDLE_MS }
        }
    }
}

/// A flag without a request causes no toggle, however often it is polled.
pub proof fn idle_flag_never_toggles(polls: nat)
    ensures
        toggles_over(false, polls) == 0,
    decreases polls,
{
    if polls > 0 {
        idle_flag_never_toggles((polls - 1) as nat);
    }
}

/// Requests coalesce: any number of requests, one or more, raised before
/// the next poll lead to exactly one toggle, however many polls follow. Two
/// requests in a row are one toggle, not two.
pub proof fn requests_coalesce(pending: bool, requests: nat, polls: nat)
    requires
        requests >= 1,
        polls >= 1,
    ensures
        raised_after(pending, requests) == raised_after(raised_after(pending, 1), 1),
        toggles_over(raised_after(pending, requests), polls) == 1,
{
    idle_flag_never_toggles((polls - 1) as nat);
}

} // verus!
