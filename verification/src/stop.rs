//! Limits on a single turn of the agent: tool call rounds, time and cost.

use crate::doubles::{greater, is_greater, THREE_HUNDRED};
use vstd::prelude::*;

verus! {

/// The rounds that a turn of a new agent may take.
pub const DEFAULT_MAX_ITERATIONS: usize = 20;

/// Stop hooks: cost/time/iteration limits for agent turns.
#[derive(Debug, Clone, Copy, PartialEq, Eq)]
pub struct StopHooks {
    /// Maximum number of tool call iterations per turn.
    pub max_iterations: usize,
    /// Maximum wall-clock time for a turn, in seconds, as the bit pattern of a
    /// double.
    pub max_time_seconds: u64,
    /// Maximum cost per turn (in cents, 0 = unlimited).
    pub max_cost_cents: u64,
    /// Rounds of the current turn.
    pub current_iteration: usize,
    /// When the current turn began, on a clock of the caller.
    pub turn_start: Option<u64>,
    /// Cost of the current turn.
    pub current_cost_cents: u64,
}

/// Whether a turn goes on, and if not, which limit it met.
#[derive(Debug, Clone, Copy, PartialEq, Eq, Structural)]
pub enum StopReason {
    Continue,
    MaxIterations(usize),
    /// The limit as the bit pattern of a double.
    MaxTime(u64),
    MaxCost(u64),
}

impl StopHooks {
    /// The limits of a new agent: 20 rounds, 300 seconds, any cost.
    pub open spec fn initial() -> StopHooks {
        StopHooks {
            max_iterations: DEFAULT_MAX_ITERATIONS,
            max_time_seconds: THREE_HUNDRED,
            max_cost_cents: 0,
            current_iteration: 0,
            turn_start: None,
            current_cost_cents: 0,
        }
    }

    /// The hooks at the start of a turn.
    pub open spec fn started(self, now: u64) -> StopHooks {
        StopHooks {
            current_iteration: 0,
            turn_start: Some(now),
            current_cost_cents: 0,
            ..self
        }
    }

    /// The hooks one round later.
    pub open spec fn ticked(self) -> StopHooks {
        StopHooks { current_iteration: (self.current_iteration + 1) as usize, ..self }
    }

    /// The hooks a number of rounds later.
    pub open spec fn ticked_times(self, n: nat) -> StopHooks
        decreases n,
    {
        if n == 0 {
            self
        } else {
            self.ticked_times((n - 1) as nat).ticked()
        }
    }

    /// Which limit is exceeded, with `elapsed` seconds gone as the bit pattern
    /// of a double: the rounds come first, then the time of a turn that was
    /// started, then the cost.
    pub open spec fn verdict(self, elapsed: u64) -> StopReason {
        if self.current_iteration > self.max_iterations {
            StopReason::MaxIterations(self.max_iterations)
        } else if self.turn_start is Some && greater(elapsed, self.max_time_seconds) {
            StopReason::MaxTime(self.max_time_seconds)
        } else if self.max_cost_cents > 0 && self.current_cost_cents > self.max_cost_cents {
            StopReason::MaxCost(self.max_cost_cents)
        } else {
            StopReason::Continue
        }
    }

    /// The limits of a new agent.
    pub fn new() -> (h: StopHooks)
        ensures
            h == StopHooks::initial(),
    {
        StopHooks {
            max_iterations: DEFAULT_MAX_ITERATIONS,
            max_time_seconds: THREE_HUNDRED,
            max_cost_cents: 0,
            current_iteration: 0,
            turn_start: None,
            current_cost_cents: 0,
        }
    }

    /// Begins a turn.
    pub fn start_turn(&mut self, now: u64)
        ensures
            *final(self) == old(self).started(now),
    {
        self.current_iteration = 0;
        self.turn_start = Some(now);
        self.current_cost_cents = 0;
    }

    /// Counts a round and says whether the turn goes on.
    pub fn tick_iteration(&mut self, elapsed: u64) -> (r: StopReason)
        requires
            old(self).current_iteration < usize::MAX,
        ensures
            *final(self) == old(self).ticked(),
            r == old(self).ticked().verdict(elapsed),
    {
        self.current_iteration += 1;
        if self.current_iteration > self.max_iterations {
            return StopReason::MaxIterations(self.max_iterations);
        }
        if self.turn_start.is_some() {
            if is_greater(elapsed, self.max_time_seconds) {
                return StopReason::MaxTime(self.max_time_seconds);
            }
        }
        if self.max_cost_cents > 0 && self.current_cost_cents > self.max_cost_cents {
            return StopReason::MaxCost(self.max_cost_cents);
        }
        StopReason::Continue
    }

    /// Adds to the cost of the turn.
    pub fn add_cost(&mut self, cents: u64)
        requires
            old(self).current_cost_cents + cents <= u64::MAX,
        ensures
            *final(self) == (StopHooks {
                current_cost_cents: (old(self).current_cost_cents + cents) as u64,
                ..*old(self)
            }),
    {
        self.current_cost_cents += cents;
    }

    /// Sets the limit on rounds.
    pub fn set_max_iterations(&mut self, max: usize)
        ensures
            *final(self) == (StopHooks { max_iterations: max, ..*old(self) }),
    {
        self.max_iterations = max;
    }

    /// Sets the limit on time, as the bit pattern of a double.
    pub fn set_max_time(&mut self, seconds: u64)
        ensures
            *final(self) == (StopHooks { max_time_seconds: seconds, ..*old(self) }),
    {
        self.max_time_seconds = seconds;
    }

    /// Sets the limit on cost.
    pub fn set_max_cost(&mut self, cents: u64)
        ensures
            *final(self) == (StopHooks { max_cost_cents: cents, ..*old(self) }),
    {
        self.max_cost_cents = cents;
    }
}

/// A turn has as many rounds as its limit says: the round after the last one is
/// stopped for that reason, and none is before.
pub proof fn law_iteration_budget(hooks: StopHooks, now: u64, rounds: nat, elapsed: u64)
    requires
        0 < rounds <= usize::MAX,
    ensures
        hooks.started(now).ticked_times(rounds) == (StopHooks {
            current_iteration: rounds as usize,
            ..hooks.started(now)
        }),
        hooks.started(now).ticked_times(rounds).verdict(elapsed) == StopReason::MaxIterations(
            hooks.max_iterations,
        ) <==> rounds > hooks.max_iterations,
    decreases rounds,
{
    if rounds > 1 {
        law_iteration_budget(hooks, now, (rounds - 1) as nat, elapsed);
    } else {
        assert(hooks.started(now).ticked_times(0) == hooks.started(now));
    }
    assert(hooks.started(now).ticked_times(rounds) == hooks.started(now).ticked_times(
        (rounds - 1) as nat,
    ).ticked());
}

/// With the cost limit at 0 no cost stops a turn.
pub proof fn law_zero_cost_is_unlimited(hooks: StopHooks, elapsed: u64)
    requires
        hooks.max_cost_cents == 0,
    ensures
        !(hooks.verdict(elapsed) is MaxCost),
{
}

/// Within all limits a turn goes on.
pub proof fn law_within_limits_goes_on(hooks: StopHooks, elapsed: u64)
    ensures
        hooks.verdict(elapsed) is Continue <==> {
            &&& hooks.current_iteration <= hooks.max_iterations
            &&& hooks.turn_start is Some ==> !greater(elapsed, hooks.max_time_seconds)
            &&& hooks.max_cost_cents > 0 ==> hooks.current_cost_cents <= hooks.max_cost_cents
        },
{
}

/// Each verdict has its reason: first too many rounds, then too much time in a turn
/// that was started, then too much cost under a limit that is not 0.
pub proof fn law_reasons_to_stop(hooks: StopHooks, elapsed: u64)
    ensures
        hooks.verdict(elapsed) is MaxIterations <==> hooks.current_iteration
            > hooks.max_iterations,
        hooks.verdict(elapsed) is MaxTime <==> hooks.current_iteration <= hooks.max_iterations
            && hooks.turn_start is Some && greater(elapsed, hooks.max_time_seconds),
        hooks.verdict(elapsed) is MaxCost <==> {
            &&& hooks.current_iteration <= hooks.max_iterations
            &&& hooks.turn_start is None || !greater(elapsed, hooks.max_time_seconds)
            &&& 0 < hooks.max_cost_cents < hooks.current_cost_cents
        },
        hooks.verdict(elapsed) matches StopReason::MaxIterations(max) ==> max
            == hooks.max_iterations,
        hooks.verdict(elapsed) matches StopReason::MaxTime(max) ==> max == hooks.max_time_seconds,
        hooks.verdict(elapsed) matches StopReason::MaxCost(max) ==> max == hooks.max_cost_cents,
{
}

/// A turn starts with nothing counted, at the given time and under the limits that
/// were set; a round counts one and changes nothing else.
pub proof fn law_counting_of_a_turn(hooks: StopHooks, now: u64)
    ensures
        hooks.started(now).current_iteration == 0,
        hooks.started(now).current_cost_cents == 0,
        hooks.started(now).turn_start == Some(now),
        hooks.started(now).max_iterations == hooks.max_iterations,
        hooks.started(now).max_time_seconds == hooks.max_time_seconds,
        hooks.started(now).max_cost_cents == hooks.max_cost_cents,
        hooks.current_iteration < usize::MAX ==> hooks.ticked().current_iteration
            == hooks.current_iteration + 1,
        hooks.ticked().current_cost_cents == hooks.current_cost_cents,
        hooks.ticked().turn_start == hooks.turn_start,
        hooks.ticked().max_iterations == hooks.max_iterations,
        hooks.ticked().max_time_seconds == hooks.max_time_seconds,
        hooks.ticked().max_cost_cents == hooks.max_cost_cents,
{
}

/// A new agent allows 20 rounds, 300 seconds and any cost, and has counted nothing.
pub proof fn law_limits_of_a_new_agent()
    ensures
        StopHooks::initial().max_iterations == 20,
        StopHooks::initial().max_time_seconds == 0x4072_c000_0000_0000,
        StopHooks::initial().max_cost_cents == 0,
        StopHooks::initial().current_iteration == 0,
        StopHooks::initial().current_cost_cents == 0,
        StopHooks::initial().turn_start is None,
{
}

} // verus!
