//! The loop driver's decisions. The loop itself, with its clock, its
//! capture and its sleep, runs outside; each tick it asks `begin_tick` what
//! to do, performs the capture, and hands the outcome to `decide`.

use crate::policy::{
    command_of, next_keeps_well_formed, ActionCommand, ActionPolicy, Button, Phase, PolicyState,
    Tick,
};
use crate::region::CaptureRegion;
use crate::sample::{Grid, PixelSample};
use crate::signal::{extract, hits_before, Thresholds};
use vstd::prelude::*;

verus! {

/// What the driver remembers between ticks.
pub struct DriverState {
    /// The action policy's memory.
    pub policy: PolicyState,
    /// The button that the policy's commands name.
    pub button: Button,
    /// Whether the loop was active on the last tick.
    pub was_active: bool,
    /// The region captured on the last tick, as clipped to the screen.
    pub region: Option<CaptureRegion>,
}

/// What to do at the start of a tick.
#[derive(Clone, Copy, Debug, PartialEq, Eq, Structural)]
pub struct Plan {
    /// To emit before anything else: the release of a button that a reset
    /// found down, nothing otherwise.
    pub command: ActionCommand,
    /// The region to capture; `None` where the loop is inactive or no pixel
    /// of the region is on the screen.
    pub capture: Option<CaptureRegion>,
}

/// How long to sleep at the end of a tick.
#[derive(Clone, Copy, Debug, PartialEq, Eq, Structural)]
pub struct Pacing {
    /// What is left of the tick interval, in milliseconds.
    pub sleep_ms: u64,
    /// The tick took longer than the interval.
    pub slow: bool,
}

/// At least one pixel of the grid has the marker's colour.
pub open spec fn marker_in(grid: Grid, t: Thresholds) -> bool {
    hits_before(grid.pixels, t.target, t.tolerance, grid.pixels.len()) > 0
}

impl DriverState {
    /// The policy's memory is well formed, and an inactive driver holds an
    /// idle policy and no region.
    pub open spec fn well_formed(self) -> bool {
        &&& self.policy.well_formed()
        &&& !self.was_active ==> self.policy == PolicyState::idle() && self.region is None
    }

    /// The region that a tick captures: none while inactive, else what of
    /// the configured region lies on the screen.
    pub open spec fn capture_of(active: bool, region: CaptureRegion, screen: CaptureRegion)
        -> Option<CaptureRegion> {
        if active {
            region.clip_spec(screen)
        } else {
            None
        }
    }

    /// Whether the start of a tick resets the policy: on the tick that
    /// finds the loop switched off, and on an active tick whose region is
    /// not the one of the tick before.
    pub open spec fn resets(self, active: bool, region: CaptureRegion, screen: CaptureRegion)
        -> bool {
        if active {
            self.region != region.clip_spec(screen)
        } else {
            self.was_active
        }
    }

    /// The driver after the start of a tick.
    pub open spec fn begun(self, active: bool, region: CaptureRegion, screen: CaptureRegion)
        -> DriverState {
        DriverState {
            policy: if self.resets(active, region, screen) {
                PolicyState::idle()
            } else {
                self.policy
            },
            button: self.button,
            was_active: active,
            region: Self::capture_of(active, region, screen),
        }
    }

    /// The plan for a tick.
    pub open spec fn plan(self, active: bool, region: CaptureRegion, screen: CaptureRegion)
        -> Plan {
        Plan {
            command: if self.resets(active, region, screen) {
                command_of(self.policy.phase, Phase::Idle, self.button)
            } else {
                ActionCommand::Nothing
            },
            capture: Self::capture_of(active, region, screen),
        }
    }

    /// The driver after the capture of a tick: `found` is `None` where the
    /// capture failed.
    pub open spec fn decided(self, found: Option<bool>, t: Thresholds, now_ms: u64)
        -> DriverState {
        match found {
            Some(found) if self.was_active => DriverState {
                policy: self.policy.next(t, Tick { found, now_ms }),
                ..self
            },
            _ => self,
        }
    }
}

/// The loop driver's state: the action policy and what the last tick saw
/// of the shared switch and region.
pub struct Driver {
    policy: ActionPolicy,
    was_active: bool,
    region: Option<CaptureRegion>,
}

impl View for Driver {
    type V = DriverState;

    closed spec fn view(&self) -> DriverState {
        DriverState {
            policy: self.policy.state(),
            button: self.policy.button(),
            was_active: self.was_active,
            region: self.region,
        }
    }
}

impl Driver {
    #[verifier::type_invariant]
    spec fn rests_idle(&self) -> bool {
        &&& self.policy.state().well_formed()
        &&& !self.was_active ==> self.policy.state() == PolicyState::idle() && self.region is None
    }

    /// A driver that has not run yet: inactive, its policy idle.
    pub fn new(button: Button) -> (d: Driver)
        ensures
            d@ == (DriverState {
                policy: PolicyState::idle(),
                button,
                was_active: false,
                region: None,
            }),
    {
        Driver { policy: ActionPolicy::new(button), was_active: false, region: None }
    }

    /// The policy's current phase, for a status display.
    pub fn phase(&self) -> (p: Phase)
        ensures
            p == self@.policy.phase,
            self@.well_formed(),
    {
        proof {
            use_type_invariant(self);
        }
        self.policy.snapshot().phase
    }

    /// Whether the last tick found the loop active.
    pub fn was_active(&self) -> (b: bool)
        ensures
            b == self@.was_active,
    {
        self.was_active
    }

    /// Starts a tick with the switch and the region as the shell has set
    /// them. The policy is reset on the tick that finds the switch off
    /// after it was on, and when the region to capture is another than on
    /// the tick before; the plan's command releases a button that such a
    /// reset found down. While inactive nothing is captured.
    pub fn begin_tick(&mut self, active: bool, region: &CaptureRegion, screen: &CaptureRegion)
        -> (plan: Plan)
        ensures
            final(self)@ == old(self)@.begun(active, *region, *screen),
            plan == old(self)@.plan(active, *region, *screen),
            old(self)@.well_formed(),
            final(self)@.well_formed(),
    {
        proof {
            use_type_invariant(&*self);
        }
        let mut policy = self.policy;
        if active {
            let clipped = region.clip(screen);
            let command = if same_region(&self.region, &clipped) {
                ActionCommand::Nothing
            } else {
                policy.reset()
            };
            *self = Driver { policy, was_active: true, region: clipped };
            Plan { command, capture: clipped }
        } else {
            let command = if self.was_active {
                policy.reset()
            } else {
                ActionCommand::Nothing
            };
            *self = Driver { policy, was_active: false, region: None };
            Plan { command, capture: None }
        }
    }

    /// Ends a tick with what the capture gave: `None` where it failed. A
    /// failed capture changes nothing and commands nothing; so does any
    /// call while inactive. Otherwise the sample is read and the policy
    /// takes its step.
    pub fn decide(
        &mut self,
        sample: Option<&PixelSample>,
        thresholds: &Thresholds,
        now_ms: u64,
    ) -> (cmd: ActionCommand)
        ensures
            final(self)@ == old(self)@.decided(
                match sample {
                    Some(s) => Some(marker_in(s@, *thresholds)),
                    None => None,
                },
                *thresholds,
                now_ms,
            ),
            cmd == if sample is Some && old(self)@.was_active {
                command_of(old(self)@.policy.phase, final(self)@.policy.phase, old(self)@.button)
            } else {
                ActionCommand::Nothing
            },
    {
        proof {
            use_type_invariant(&*self);
        }
        match sample {
            Some(sample) => {
                if self.was_active {
                    let signal = extract(sample, thresholds);
                    let mut policy = self.policy;
                    let cmd = policy.step(thresholds, &signal, now_ms);
                    *self = Driver { policy, was_active: true, region: self.region };
                    cmd
                } else {
                    ActionCommand::Nothing
                }
            },
            None => ActionCommand::Nothing,
        }
    }
}

/// Whether two optional regions are the same.
pub fn same_region(a: &Option<CaptureRegion>, b: &Option<CaptureRegion>) -> (same: bool)
    ensures
        same == (*a == *b),
{
    match (a, b) {
        (Some(x), Some(y)) => x.x == y.x && x.y == y.y && x.width == y.width && x.height
            == y.height,
        (None, None) => true,
        _ => false,
    }
}

/// What is left of a tick of `interval_ms` after `spent_ms` of work. A
/// tick that overran sleeps not at all and is reported as slow; no work is
/// queued for it.
pub fn pace(interval_ms: u64, spent_ms: u64) -> (p: Pacing)
    ensures
        p.slow == (spent_ms > interval_ms),
        p.sleep_ms == if spent_ms > interval_ms {
            0
        } else {
            interval_ms - spent_ms
        },
{
    if spent_ms > interval_ms {
        Pacing { sleep_ms: 0, slow: true }
    } else {
        Pacing { sleep_ms: interval_ms - spent_ms, slow: false }
    }
}

/// Frames the bytes that a capture of `region` returned, four per pixel.
/// The sample has the region's width and height exactly; bytes of any
/// other number than `4 * width * height` are refused.
pub fn sample_of_capture(region: &CaptureRegion, raw: &Vec<u8>) -> (s: Option<PixelSample>)
    ensures
        s is Some <==> raw@.len() == 4 * (region.width * region.height),
        s matches Some(sample) ==> {
            &&& sample@.width == region.width
            &&& sample@.height == region.height
            &&& sample@.pixels == crate::sample::pixels_of_rgba(raw@)
        },
{
    PixelSample::from_rgba(region.width, region.height, raw)
}

/// Deactivation reset: whatever phase the policy is in, the tick that
/// finds the switch off leaves it idle, and the next active tick starts
/// from idle. A button that was down is released by that tick's plan.
pub proof fn deactivation_resets(
    d: DriverState,
    region: CaptureRegion,
    screen: CaptureRegion,
    later_region: CaptureRegion,
    later_screen: CaptureRegion,
)
    requires
        d.well_formed(),
    ensures
        d.begun(false, region, screen).policy == PolicyState::idle(),
        d.begun(false, region, screen).begun(true, later_region, later_screen).policy
            == PolicyState::idle(),
        d.policy.phase == Phase::Acting ==> d.plan(false, region, screen).command
            == ActionCommand::Release(d.button),
        d.policy.phase != Phase::Acting ==> d.plan(false, region, screen).command
            == ActionCommand::Nothing,
{
}

/// The reset happens once: an inactive tick that follows an inactive tick
/// changes nothing and commands nothing.
pub proof fn idle_ticks_change_nothing(d: DriverState, region: CaptureRegion, screen: CaptureRegion)
    requires
        d.well_formed(),
        !d.was_active,
    ensures
        d.begun(false, region, screen) == d,
        d.plan(false, region, screen) == (Plan { command: ActionCommand::Nothing, capture: None }),
{
}

/// Every step of the driver keeps an inactive driver idle.
pub proof fn driver_stays_well_formed(
    d: DriverState,
    active: bool,
    region: CaptureRegion,
    screen: CaptureRegion,
    found: Option<bool>,
    t: Thresholds,
    now_ms: u64,
)
    requires
        d.well_formed(),
    ensures
        d.begun(active, region, screen).well_formed(),
        d.decided(found, t, now_ms).well_formed(),
{
    if found is Some {
        next_keeps_well_formed(d.policy, t, Tick { found: found->0, now_ms });
    }
}

/// A non-empty region on the screen is captured as configured, so the
/// sample framed from its capture has the requested width and height.
pub proof fn region_on_screen_is_captured_whole(
    d: DriverState,
    region: CaptureRegion,
    screen: CaptureRegion,
)
    requires
        region.non_empty(),
        region.inside(screen),
    ensures
        d.plan(true, region, screen).capture == Some(region),
{
}

} // verus!
