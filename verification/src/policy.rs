//! The action policy: a four-phase state machine that turns one reading
//! per tick into one command per tick.

use crate::keys::KeyCode;
use crate::signal::{Signal, Thresholds};
use vstd::prelude::*;

verus! {

/// What an emitted action presses.
#[derive(Clone, Copy, Debug, PartialEq, Eq, Structural)]
pub enum Button {
    MouseLeft,
    MouseRight,
    MouseMiddle,
    Key(KeyCode),
}

/// The decision of one tick.
#[derive(Clone, Copy, Debug, PartialEq, Eq, Structural)]
pub enum ActionCommand {
    /// Do nothing.
    Nothing,
    /// Push the button down.
    Press(Button),
    /// Keep the button down. An emitter takes it as it takes a press of a
    /// button that is down already; the policy itself enters `Acting` with
    /// a press and commands nothing while it stays there.
    Hold(Button),
    /// Let the button go.
    Release(Button),
}

/// Where the policy stands.
#[derive(Clone, Copy, Debug, PartialEq, Eq, Structural)]
pub enum Phase {
    /// Nothing seen.
    Idle,
    /// The marker was seen and has to stay for the debounce window.
    Armed,
    /// The button is down.
    Acting,
    /// A forced pause after acting.
    Cooldown,
}

/// The policy's memory.
#[derive(Clone, Copy, Debug, PartialEq, Eq, Structural)]
pub struct PolicyState {
    /// The current phase.
    pub phase: Phase,
    /// Consecutive ticks on which the marker was seen; counted while armed.
    pub streak: u32,
    /// The time, in milliseconds, at which the current phase was entered.
    pub since_ms: u64,
}

/// What one tick hands to the policy: whether the marker was found and
/// the time of the reading, in milliseconds.
#[derive(Clone, Copy, Debug, PartialEq, Eq, Structural)]
pub struct Tick {
    pub found: bool,
    pub now_ms: u64,
}

/// Consecutive sightings needed before acting: the configured count, and
/// one where that is zero.
pub open spec fn needed_ticks(t: Thresholds) -> int {
    if t.debounce_ticks == 0 {
        1
    } else {
        t.debounce_ticks as int
    }
}

/// Milliseconds from `since_ms` to `now_ms`; zero where the clock went
/// back.
pub open spec fn elapsed_ms(since_ms: u64, now_ms: u64) -> int {
    if now_ms >= since_ms {
        now_ms - since_ms
    } else {
        0
    }
}

/// The command that goes with a change of phase: press on entering
/// `Acting`, release on leaving it, nothing otherwise. A tick that leaves
/// the phase as it is commands nothing, in `Acting` too.
pub open spec fn command_of(before: Phase, after: Phase, button: Button) -> ActionCommand {
    if before != Phase::Acting && after == Phase::Acting {
        ActionCommand::Press(button)
    } else if before == Phase::Acting && after != Phase::Acting {
        ActionCommand::Release(button)
    } else {
        ActionCommand::Nothing
    }
}

impl PolicyState {
    /// The state in which every policy starts and to which a reset leads.
    pub open spec fn idle() -> PolicyState {
        PolicyState { phase: Phase::Idle, streak: 0, since_ms: 0 }
    }

    /// The streak counts only while armed.
    pub open spec fn well_formed(self) -> bool {
        if self.phase == Phase::Armed {
            self.streak >= 1
        } else {
            self.streak == 0
        }
    }

    /// The state after the marker was seen for the `seen`-th tick in a row.
    pub open spec fn sighted(self, t: Thresholds, seen: int, now_ms: u64) -> PolicyState {
        if seen >= needed_ticks(t) {
            PolicyState { phase: Phase::Acting, streak: 0, since_ms: now_ms }
        } else {
            PolicyState {
                phase: Phase::Armed,
                streak: seen as u32,
                since_ms: if self.phase == Phase::Armed {
                    self.since_ms
                } else {
                    now_ms
                },
            }
        }
    }

    /// The state after one tick.
    pub open spec fn next(self, t: Thresholds, tick: Tick) -> PolicyState {
        match self.phase {
            Phase::Idle => if tick.found {
                self.sighted(t, 1, tick.now_ms)
            } else {
                self
            },
            Phase::Armed => if tick.found {
                self.sighted(t, self.streak + 1, tick.now_ms)
            } else {
                PolicyState { phase: Phase::Idle, streak: 0, since_ms: tick.now_ms }
            },
            Phase::Acting => if !tick.found || elapsed_ms(self.since_ms, tick.now_ms)
                >= t.max_hold_ms {
                PolicyState { phase: Phase::Cooldown, streak: 0, since_ms: tick.now_ms }
            } else {
                self
            },
            Phase::Cooldown => if elapsed_ms(self.since_ms, tick.now_ms) >= t.cooldown_ms {
                PolicyState { phase: Phase::Idle, streak: 0, since_ms: tick.now_ms }
            } else {
                self
            },
        }
    }

    /// The state after a run of ticks.
    pub open spec fn after(self, t: Thresholds, ticks: Seq<Tick>) -> PolicyState
        decreases ticks.len(),
    {
        if ticks.len() == 0 {
            self
        } else {
            self.after(t, ticks.drop_last()).next(t, ticks.last())
        }
    }

    /// The commands of a run of ticks, one per tick.
    pub open spec fn commands(self, t: Thresholds, button: Button, ticks: Seq<Tick>) -> Seq<
        ActionCommand,
    >
        decreases ticks.len(),
    {
        if ticks.len() == 0 {
            Seq::empty()
        } else {
            let before = self.after(t, ticks.drop_last());
            self.commands(t, button, ticks.drop_last()).push(
                command_of(before.phase, before.next(t, ticks.last()).phase, button),
            )
        }
    }
}

/// The action policy. It owns its state; nothing else changes it.
#[derive(Clone, Copy, Debug)]
pub struct ActionPolicy {
    button: Button,
    state: PolicyState,
}

impl ActionPolicy {
    #[verifier::type_invariant]
    spec fn counts_while_armed(&self) -> bool {
        self.state.well_formed()
    }

    /// The policy's memory.
    pub closed spec fn state(&self) -> PolicyState {
        self.state
    }

    /// The button that the policy's commands name.
    pub closed spec fn button(&self) -> Button {
        self.button
    }

    /// A policy for `button`, idle.
    pub fn new(button: Button) -> (p: ActionPolicy)
        ensures
            p.state() == PolicyState::idle(),
            p.button() == button,
    {
        ActionPolicy { button, state: PolicyState { phase: Phase::Idle, streak: 0, since_ms: 0 } }
    }

    /// The current phase, for a status display.
    pub fn phase(&self) -> (p: Phase)
        ensures
            p == self.state().phase,
    {
        self.state.phase
    }

    /// A copy of the policy's memory.
    pub fn snapshot(&self) -> (s: PolicyState)
        ensures
            s == self.state(),
            s.well_formed(),
    {
        proof {
            use_type_invariant(self);
        }
        self.state
    }

    /// The button that the commands name.
    pub fn target_button(&self) -> (b: Button)
        ensures
            b == self.button(),
    {
        self.button
    }

    /// Forgets everything and returns to `Idle`. The command is the one of
    /// that change of phase: a release where the button was down.
    pub fn reset(&mut self) -> (cmd: ActionCommand)
        ensures
            final(self).state() == PolicyState::idle(),
            final(self).button() == old(self).button(),
            cmd == command_of(old(self).state().phase, Phase::Idle, old(self).button()),
    {
        let cmd = match self.state.phase {
            Phase::Acting => ActionCommand::Release(self.button),
            _ => ActionCommand::Nothing,
        };
        self.state = PolicyState { phase: Phase::Idle, streak: 0, since_ms: 0 };
        cmd
    }

    /// One tick: takes the reading made at `now_ms`, moves to the next
    /// state and returns the command of that move.
    pub fn step(&mut self, thresholds: &Thresholds, signal: &Signal, now_ms: u64) -> (cmd:
        ActionCommand)
        ensures
            final(self).state() == old(self).state().next(
                *thresholds,
                Tick { found: signal.marker_found, now_ms },
            ),
            final(self).button() == old(self).button(),
            final(self).state().well_formed(),
            cmd == command_of(
                old(self).state().phase,
                final(self).state().phase,
                old(self).button(),
            ),
    {
        self.advance(thresholds, Tick { found: signal.marker_found, now_ms })
    }

    /// A run of ticks, oldest first: the commands, one per tick.
    pub fn replay(&mut self, thresholds: &Thresholds, ticks: &Vec<Tick>) -> (cmds: Vec<
        ActionCommand,
    >)
        ensures
            final(self).state() == old(self).state().after(*thresholds, ticks@),
            final(self).button() == old(self).button(),
            final(self).state().well_formed(),
            cmds@ == old(self).state().commands(*thresholds, old(self).button(), ticks@),
    {
        let ghost start = self.state;
        let ghost button = self.button;
        let mut cmds: Vec<ActionCommand> = Vec::new();
        let mut i: usize = 0;
        proof {
            use_type_invariant(&*self);
        }
        while i < ticks.len()
            invariant
                i <= ticks.len(),
                self.button == button,
                self.state.well_formed(),
                self.state == start.after(*thresholds, ticks@.take(i as int)),
                cmds@ == start.commands(*thresholds, button, ticks@.take(i as int)),
            decreases ticks.len() - i,
        {
            proof {
                let upto = ticks@.take(i + 1);
                assert(upto.drop_last() =~= ticks@.take(i as int));
                assert(upto.last() == ticks@[i as int]);
            }
            let cmd = self.advance(thresholds, ticks[i]);
            cmds.push(cmd);
            i += 1;
        }
        proof {
            assert(ticks@.take(i as int) =~= ticks@);
        }
        cmds
    }

    /// One tick, from what the policy reads of a signal.
    pub fn advance(&mut self, thresholds: &Thresholds, tick: Tick) -> (cmd: ActionCommand)
        ensures
            final(self).state() == old(self).state().next(*thresholds, tick),
            final(self).button() == old(self).button(),
            final(self).state().well_formed(),
            cmd == command_of(
                old(self).state().phase,
                final(self).state().phase,
                old(self).button(),
            ),
    {
        let needed: u64 = if thresholds.debounce_ticks == 0 {
            1
        } else {
            thresholds.debounce_ticks as u64
        };
        let elapsed: u64 = if tick.now_ms >= self.state.since_ms {
            tick.now_ms - self.state.since_ms
        } else {
            0
        };
        let button = self.button;
        proof {
            use_type_invariant(&*self);
            next_keeps_well_formed(self.state, *thresholds, tick);
        }
        match self.state.phase {
            Phase::Idle => {
                if !tick.found {
                    ActionCommand::Nothing
                } else if 1 >= needed {
                    self.state = PolicyState {
                        phase: Phase::Acting,
                        streak: 0,
                        since_ms: tick.now_ms,
                    };
                    ActionCommand::Press(button)
                } else {
                    self.state = PolicyState {
                        phase: Phase::Armed,
                        streak: 1,
                        since_ms: tick.now_ms,
                    };
                    ActionCommand::Nothing
                }
            },
            Phase::Armed => {
                if !tick.found {
                    self.state = PolicyState {
                        phase: Phase::Idle,
                        streak: 0,
                        since_ms: tick.now_ms,
                    };
                    ActionCommand::Nothing
                } else if self.state.streak as u64 + 1 >= needed {
                    self.state = PolicyState {
                        phase: Phase::Acting,
                        streak: 0,
                        since_ms: tick.now_ms,
                    };
                    ActionCommand::Press(button)
                } else {
                    self.state.streak = self.state.streak + 1;
                    ActionCommand::Nothing
                }
            },
            Phase::Acting => {
                if !tick.found || elapsed >= thresholds.max_hold_ms {
                    self.state = PolicyState {
                        phase: Phase::Cooldown,
                        streak: 0,
                        since_ms: tick.now_ms,
                    };
                    ActionCommand::Release(button)
                } else {
                    ActionCommand::Nothing
                }
            },
            Phase::Cooldown => {
                if elapsed >= thresholds.cooldown_ms {
                    self.state = PolicyState {
                        phase: Phase::Idle,
                        streak: 0,
                        since_ms: tick.now_ms,
                    };
                }
                ActionCommand::Nothing
            },
        }
    }
}

/// Presses less releases in a list of commands.
pub open spec fn buttons_down(cmds: Seq<ActionCommand>) -> int
    decreases cmds.len(),
{
    if cmds.len() == 0 {
        0
    } else {
        buttons_down(cmds.drop_last()) + match cmds.last() {
            ActionCommand::Press(_) => 1int,
            ActionCommand::Release(_) => -1int,
            _ => 0int,
        }
    }
}

/// The commands of a marker that is seen in time: nothing while the
/// sighting is confirmed, a press on the tick that confirms it, nothing on
/// each of the `holds` ticks on which the button stays down, then the
/// release.
pub open spec fn triggered_commands(needed: int, holds: int, button: Button) -> Seq<
    ActionCommand,
> {
    Seq::new(
        (needed + holds + 1) as nat,
        |i: int|
            if i < needed - 1 {
                ActionCommand::Nothing
            } else if i == needed - 1 {
                ActionCommand::Press(button)
            } else if i < needed + holds {
                ActionCommand::Nothing
            } else {
                ActionCommand::Release(button)
            },
    )
}

/// The command is read off the transition alone: a press exactly on
/// entering `Acting`, a release exactly on leaving it, and nothing on every
/// other tick, those that leave the phase as it is included. The policy
/// never commands a hold.
pub proof fn command_follows_the_transition(before: Phase, after: Phase, button: Button)
    ensures
        command_of(before, after, button) == ActionCommand::Press(button) <==> (before
            != Phase::Acting && after == Phase::Acting),
        command_of(before, after, button) == ActionCommand::Release(button) <==> (before
            == Phase::Acting && after != Phase::Acting),
        before == after ==> command_of(before, after, button) == ActionCommand::Nothing,
        !(command_of(before, after, button) is Hold),
{
}

/// A tick keeps the streak counted while armed and zero otherwise.
pub proof fn next_keeps_well_formed(s: PolicyState, t: Thresholds, tick: Tick)
    requires
        s.well_formed(),
    ensures
        s.next(t, tick).well_formed(),
{
}

/// Cooldown: until the quiet time is over the policy stays as it is and
/// commands nothing, whether the marker is seen or not.
pub proof fn cooldown_ignores_the_marker(
    s: PolicyState,
    t: Thresholds,
    button: Button,
    tick: Tick,
)
    requires
        s.phase == Phase::Cooldown,
        elapsed_ms(s.since_ms, tick.now_ms) < t.cooldown_ms,
    ensures
        s.next(t, tick) == s,
        command_of(s.phase, s.next(t, tick).phase, button) == ActionCommand::Nothing,
{
}

/// Debounce: a marker that is seen on fewer consecutive ticks than are
/// needed and then is gone leaves an idle policy idle, and every command
/// of the run is `Nothing`.
pub proof fn short_sighting_is_ignored(
    s: PolicyState,
    t: Thresholds,
    button: Button,
    ticks: Seq<Tick>,
)
    requires
        s.phase == Phase::Idle,
        1 <= ticks.len() <= needed_ticks(t),
        forall|i: int| 0 <= i < ticks.len() - 1 ==> (#[trigger] ticks[i]).found,
        !ticks.last().found,
    ensures
        s.after(t, ticks).phase == Phase::Idle,
        s.commands(t, button, ticks) == Seq::new(ticks.len(), |i: int| ActionCommand::Nothing),
{
    lemma_arming(s, t, button, ticks.drop_last());
    assert(s.commands(t, button, ticks) =~= Seq::new(
        ticks.len(),
        |i: int| ActionCommand::Nothing,
    ));
}

/// Trigger: from idle, a marker seen on as many consecutive ticks as are
/// needed, held for `holds` further ticks within the hold limit, and then
/// gone or held to the limit, gives exactly the commands of
/// `triggered_commands`, and leaves the policy cooling down since the last
/// tick.
pub proof fn confirmed_sighting_presses_once(
    s: PolicyState,
    t: Thresholds,
    button: Button,
    ticks: Seq<Tick>,
    holds: nat,
)
    requires
        s.phase == Phase::Idle,
        ticks.len() == needed_ticks(t) + holds + 1,
        forall|i: int| 0 <= i < needed_ticks(t) + holds ==> (#[trigger] ticks[i]).found,
        forall|i: int|
            needed_ticks(t) <= i < needed_ticks(t) + holds ==> elapsed_ms(
                ticks[needed_ticks(t) - 1].now_ms,
                (#[trigger] ticks[i]).now_ms,
            ) < t.max_hold_ms,
        !ticks.last().found || elapsed_ms(
            ticks[needed_ticks(t) - 1].now_ms,
            ticks.last().now_ms,
        ) >= t.max_hold_ms,
    ensures
        s.commands(t, button, ticks) == triggered_commands(needed_ticks(t), holds as int, button),
        s.after(t, ticks) == (PolicyState {
            phase: Phase::Cooldown,
            streak: 0,
            since_ms: ticks.last().now_ms,
        }),
{
    let k = needed_ticks(t);
    lemma_holding(s, t, button, ticks.drop_last(), holds);
    assert(s.commands(t, button, ticks) =~= triggered_commands(k, holds as int, button));
}

/// Presses and releases alternate: over any run of ticks the presses
/// exceed the releases by one where the run enters `Acting` and stays, fall
/// short by one where it starts in `Acting` and leaves, and balance
/// otherwise. As this holds of every prefix of a run, no press follows a
/// press and no release a release.
pub proof fn presses_and_releases_alternate(
    s: PolicyState,
    t: Thresholds,
    button: Button,
    ticks: Seq<Tick>,
)
    ensures
        s.commands(t, button, ticks).len() == ticks.len(),
        buttons_down(s.commands(t, button, ticks)) == (if s.after(t, ticks).phase
            == Phase::Acting {
            1int
        } else {
            0int
        }) - (if s.phase == Phase::Acting {
            1int
        } else {
            0int
        }),
    decreases ticks.len(),
{
    if ticks.len() > 0 {
        presses_and_releases_alternate(s, t, button, ticks.drop_last());
        let cmds = s.commands(t, button, ticks);
        assert(cmds.drop_last() =~= s.commands(t, button, ticks.drop_last()));
    }
}

/// While the marker is seen on fewer ticks than are needed, the policy
/// arms and counts, and commands nothing.
proof fn lemma_arming(s: PolicyState, t: Thresholds, button: Button, ticks: Seq<Tick>)
    requires
        s.phase == Phase::Idle,
        ticks.len() < needed_ticks(t),
        forall|i: int| 0 <= i < ticks.len() ==> (#[trigger] ticks[i]).found,
    ensures
        ticks.len() == 0 ==> s.after(t, ticks) == s,
        ticks.len() > 0 ==> s.after(t, ticks) == (PolicyState {
            phase: Phase::Armed,
            streak: ticks.len() as u32,
            since_ms: ticks[0].now_ms,
        }),
        s.commands(t, button, ticks) == Seq::new(ticks.len(), |i: int| ActionCommand::Nothing),
    decreases ticks.len(),
{
    if ticks.len() > 0 {
        let before = ticks.drop_last();
        lemma_arming(s, t, button, before);
        assert(ticks.last() == ticks[ticks.len() - 1]);
        if before.len() > 0 {
            assert(before[0] == ticks[0]);
        }
    }
    assert(s.commands(t, button, ticks) =~= Seq::new(
        ticks.len(),
        |i: int| ActionCommand::Nothing,
    ));
}

/// Once the marker has been seen on as many ticks as are needed, the
/// button goes down, and it stays down while the marker stays and the hold
/// limit is not reached.
proof fn lemma_holding(
    s: PolicyState,
    t: Thresholds,
    button: Button,
    ticks: Seq<Tick>,
    holds: nat,
)
    requires
        s.phase == Phase::Idle,
        ticks.len() == needed_ticks(t) + holds,
        forall|i: int| 0 <= i < ticks.len() ==> (#[trigger] ticks[i]).found,
        forall|i: int|
            needed_ticks(t) <= i < ticks.len() ==> elapsed_ms(
                ticks[needed_ticks(t) - 1].now_ms,
                (#[trigger] ticks[i]).now_ms,
            ) < t.max_hold_ms,
    ensures
        s.after(t, ticks) == (PolicyState {
            phase: Phase::Acting,
            streak: 0,
            since_ms: ticks[needed_ticks(t) - 1].now_ms,
        }),
        s.commands(t, button, ticks) == triggered_commands(
            needed_ticks(t),
            holds as int,
            button,
        ).drop_last(),
    decreases holds,
{
    let k = needed_ticks(t);
    let before = ticks.drop_last();
    assert(ticks.last() == ticks[ticks.len() - 1]);
    if holds == 0 {
        lemma_arming(s, t, button, before);
    } else {
        assert(before[k - 1] == ticks[k - 1]);
        assert forall|i: int| k <= i < before.len() implies elapsed_ms(
            before[k - 1].now_ms,
            (#[trigger] before[i]).now_ms,
        ) < t.max_hold_ms by {
            assert(before[i] == ticks[i]);
        }
        lemma_holding(s, t, button, before, (holds - 1) as nat);
    }
    assert(s.commands(t, button, ticks) =~= triggered_commands(
        k,
        holds as int,
        button,
    ).drop_last());
}

} // verus!
