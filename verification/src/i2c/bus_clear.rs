//! Freeing a data line that a device holds low.
//!
//! A device reset in the middle of a byte waits for clocks that never come and holds SDA low. Nine
//! clock pulses bring it past the byte. The sequencer decides; driving the lines is up to whoever
//! owns the pins.

use vstd::prelude::*;

verus! {

/// The most clock pulses: a byte and its acknowledge.
pub const BUS_CLEAR_MAX_PULSES: u32 = 9;

/// What is to be done with the lines. Both are open-drain: `true` releases a line, `false` drives
/// it low.
#[derive(Debug, Clone, Copy, PartialEq, Eq, Structural)]
pub enum LineAction {
    /// Look at SDA, and hand the level back.
    ReadSda,
    /// Set SCL.
    Scl(bool),
    /// Set SDA.
    Sda(bool),
    /// Wait half a clock.
    Pause,
    /// Nothing: this many pulses were made.
    Done(u32),
}

/// Where the sequence stands.
#[derive(Debug, Clone, Copy, PartialEq, Eq, Structural)]
pub enum Place {
    /// Nothing done yet.
    Start,
    /// The first look at SDA is out.
    Checking,
    /// SDA is looked at before another pulse.
    Watching,
    /// In a pulse: SCL is low, the low half is over, SCL is released.
    PulseLow,
    PulseWait,
    PulseHigh,
    /// In the STOP: SCL is released, SDA is low, the wait is over.
    StopScl,
    StopSda,
    StopWait,
    /// Over.
    Finished,
}

/// The sequence: its place, and the pulses made.
#[derive(Debug, Clone, Copy, PartialEq, Eq, Structural)]
pub struct BusClear {
    pub place: Place,
    pub pulses: u32,
}

/// Before a pulse: another look at SDA, or the STOP when the pulses are spent.
pub open spec fn before_pulse(pulses: u32) -> (BusClear, LineAction) {
    if pulses < BUS_CLEAR_MAX_PULSES {
        (BusClear { place: Place::Watching, pulses }, LineAction::ReadSda)
    } else {
        (BusClear { place: Place::StopScl, pulses }, LineAction::Scl(true))
    }
}

impl BusClear {
    /// The pulses stay within their bound.
    pub open spec fn wf(self) -> bool {
        &&& self.pulses <= BUS_CLEAR_MAX_PULSES
        &&& (self.place is Watching || self.place is PulseLow || self.place is PulseWait
            || self.place is PulseHigh) ==> self.pulses < BUS_CLEAR_MAX_PULSES
    }

    /// What comes next, and where the sequence stands then. `sda_high` is the level of SDA where
    /// it was looked at.
    ///
    /// A released SDA at the first look ends the sequence with neither line driven. Otherwise SCL
    /// is pulsed until SDA is released or the pulses are spent, and a STOP follows.
    pub open spec fn next(self, sda_high: bool) -> (BusClear, LineAction) {
        let n = self.pulses;
        match self.place {
            Place::Start => (BusClear { place: Place::Checking, pulses: n }, LineAction::ReadSda),
            Place::Checking => if sda_high {
                (BusClear { place: Place::Finished, pulses: n }, LineAction::Done(n))
            } else {
                before_pulse(n)
            },
            Place::Watching => if sda_high {
                (BusClear { place: Place::StopScl, pulses: n }, LineAction::Scl(true))
            } else {
                (BusClear { place: Place::PulseLow, pulses: n }, LineAction::Scl(false))
            },
            Place::PulseLow => (BusClear { place: Place::PulseWait, pulses: n }, LineAction::Pause),
            Place::PulseWait => (
                BusClear { place: Place::PulseHigh, pulses: n },
                LineAction::Scl(true),
            ),
            Place::PulseHigh => before_pulse((n + 1) as u32),
            Place::StopScl => (
                BusClear { place: Place::StopSda, pulses: n },
                LineAction::Sda(false),
            ),
            Place::StopSda => (BusClear { place: Place::StopWait, pulses: n }, LineAction::Pause),
            Place::StopWait => (BusClear { place: Place::Finished, pulses: n }, LineAction::Sda(true)),
            Place::Finished => (self, LineAction::Done(n)),
        }
    }

    /// How many actions are left at most.
    pub open spec fn rank(self) -> int {
        let left = 4 * (BUS_CLEAR_MAX_PULSES - self.pulses);
        match self.place {
            Place::Start => left + 7,
            Place::Checking => left + 6,
            Place::Watching => left + 5,
            Place::PulseLow => left + 4,
            Place::PulseWait => left + 3,
            Place::PulseHigh => left + 2,
            Place::StopScl => 3,
            Place::StopSda => 2,
            Place::StopWait => 1,
            Place::Finished => 0,
        }
    }

    /// A sequence that has not begun.
    pub fn new() -> (r: BusClear)
        ensures
            r == (BusClear { place: Place::Start, pulses: 0 }),
            r.wf(),
    {
        BusClear { place: Place::Start, pulses: 0 }
    }

    fn before(pulses: u32) -> (r: (BusClear, LineAction))
        ensures
            r == before_pulse(pulses),
    {
        if pulses < BUS_CLEAR_MAX_PULSES {
            (BusClear { place: Place::Watching, pulses }, LineAction::ReadSda)
        } else {
            (BusClear { place: Place::StopScl, pulses }, LineAction::Scl(true))
        }
    }

    /// Go on: the action to take next. `sda_high` answers the last [`LineAction::ReadSda`] and is
    /// not looked at otherwise.
    pub fn advance(&mut self, sda_high: bool) -> (r: LineAction)
        requires
            old(self).wf(),
        ensures
            (*final(self), r) == old(self).next(sda_high),
            final(self).wf(),
    {
        let n: u32 = self.pulses;
        let (to, action): (BusClear, LineAction) = match self.place {
            Place::Start => (BusClear { place: Place::Checking, pulses: n }, LineAction::ReadSda),
            Place::Checking => if sda_high {
                (BusClear { place: Place::Finished, pulses: n }, LineAction::Done(n))
            } else {
                BusClear::before(n)
            },
            Place::Watching => if sda_high {
                (BusClear { place: Place::StopScl, pulses: n }, LineAction::Scl(true))
            } else {
                (BusClear { place: Place::PulseLow, pulses: n }, LineAction::Scl(false))
            },
            Place::PulseLow => (BusClear { place: Place::PulseWait, pulses: n }, LineAction::Pause),
            Place::PulseWait => (
                BusClear { place: Place::PulseHigh, pulses: n },
                LineAction::Scl(true),
            ),
            Place::PulseHigh => BusClear::before(n + 1),
            Place::StopScl => (
                BusClear { place: Place::StopSda, pulses: n },
                LineAction::Sda(false),
            ),
            Place::StopSda => (BusClear { place: Place::StopWait, pulses: n }, LineAction::Pause),
            Place::StopWait => (
                BusClear { place: Place::Finished, pulses: n },
                LineAction::Sda(true),
            ),
            Place::Finished => (BusClear { place: Place::Finished, pulses: n }, LineAction::Done(n)),
        };
        self.place = to.place;
        self.pulses = to.pulses;
        action
    }
}

/// The sequence ends whatever SDA does: every action brings it nearer to its end, until it is
/// there.
pub proof fn law_bus_clear_ends(state: BusClear, sda_high: bool)
    requires
        state.wf(),
    ensures
        state.next(sda_high).0.wf(),
        state.place is Finished || 0 <= state.next(sda_high).0.rank() < state.rank(),
        state.place is Finished ==> state.next(sda_high) == (
            state,
            LineAction::Done(state.pulses),
        ),
{
}

/// A pulse is counted exactly when SCL was driven low for it, and SDA is driven low only for the
/// STOP, with SCL released.
pub proof fn law_pulses_are_scl_edges(state: BusClear, sda_high: bool)
    requires
        state.wf(),
    ensures
        state.next(sda_high).1 == LineAction::Scl(false) <==> (state.place is Watching && !sda_high),
        state.next(sda_high).0.pulses != state.pulses <==> state.place is PulseHigh,
        state.next(sda_high).1 == LineAction::Sda(false) <==> state.place is StopScl,
{
}

/// The sequence after `k` actions, and those actions, where SDA is high after as many pulses as
/// `sda` says.
pub open spec fn acted(k: nat, sda: spec_fn(u32) -> bool) -> (BusClear, Seq<LineAction>)
    decreases k,
{
    if k == 0 {
        (BusClear { place: Place::Start, pulses: 0 }, Seq::empty())
    } else {
        let (state, actions) = acted((k - 1) as nat, sda);
        let (to, action) = state.next(sda(state.pulses));
        (to, actions.push(action))
    }
}

/// A look at SDA, and `n` pulses with a look before each: SCL low for half a clock, then released.
pub open spec fn pulse_train(n: nat) -> Seq<LineAction>
    decreases n,
{
    if n == 0 {
        seq![LineAction::ReadSda]
    } else {
        pulse_train((n - 1) as nat).push(LineAction::ReadSda).push(LineAction::Scl(false)).push(
            LineAction::Pause,
        ).push(LineAction::Scl(true))
    }
}

/// A STOP: with SCL released, SDA low for half a clock, then released.
pub open spec fn stop_actions(n: u32) -> Seq<LineAction> {
    seq![
        LineAction::Scl(true),
        LineAction::Sda(false),
        LineAction::Pause,
        LineAction::Sda(true),
        LineAction::Done(n),
    ]
}

proof fn pulsed(n: nat, sda: spec_fn(u32) -> bool)
    requires
        n <= 9,
        !sda(0),
        forall|i: u32| i < n ==> !#[trigger] sda(i),
    ensures
        acted(1 + 4 * n, sda).1 == pulse_train(n),
        acted(1 + 4 * n, sda).0 == (if n == 0 {
            BusClear { place: Place::Checking, pulses: 0 }
        } else {
            BusClear { place: Place::PulseHigh, pulses: (n - 1) as u32 }
        }),
    decreases n,
{
    if n == 0 {
        reveal_with_fuel(acted, 2);
        assert(acted(1, sda).1 =~= seq![LineAction::ReadSda]);
    } else {
        let m = (n - 1) as nat;
        pulsed(m, sda);
        assert(!sda(m as u32));
        let k = 1 + 4 * m;
        assert(acted(k + 1, sda).0 == (BusClear { place: Place::Watching, pulses: m as u32 }));
        assert(acted(k + 2, sda).0 == (BusClear { place: Place::PulseLow, pulses: m as u32 }));
        assert(acted(k + 3, sda).0 == (BusClear { place: Place::PulseWait, pulses: m as u32 }));
        assert(1 + 4 * n == k + 4);
    }
}

/// A line that is free at once is left alone: one look, and no line is driven.
pub proof fn law_free_line_is_left_alone(sda: spec_fn(u32) -> bool)
    requires
        sda(0),
    ensures
        acted(2, sda).1 == seq![LineAction::ReadSda, LineAction::Done(0)],
{
    reveal_with_fuel(acted, 3);
    assert(acted(2, sda).1 =~= seq![LineAction::ReadSda, LineAction::Done(0)]);
}

/// A device that lets go of SDA after `n` pulses, one to eight, gets exactly these and a STOP, and
/// their number is reported.
pub proof fn law_pulses_until_released(n: u32, sda: spec_fn(u32) -> bool)
    requires
        1 <= n < 9,
        forall|i: u32| i < n ==> !#[trigger] sda(i),
        sda(n),
    ensures
        acted((4 * n + 7) as nat, sda).1 == pulse_train(n as nat).push(LineAction::ReadSda)
            + stop_actions(n),
{
    assert(!sda(0));
    pulsed(n as nat, sda);
    let k = 1 + 4 * (n as nat);
    assert(acted(k + 1, sda).0 == (BusClear { place: Place::Watching, pulses: n }));
    assert(acted(k + 2, sda).0 == (BusClear { place: Place::StopScl, pulses: n }));
    assert(acted(k + 3, sda).0 == (BusClear { place: Place::StopSda, pulses: n }));
    assert(acted(k + 4, sda).0 == (BusClear { place: Place::StopWait, pulses: n }));
    assert(acted(k + 5, sda).0 == (BusClear { place: Place::Finished, pulses: n }));
    assert(acted(k + 6, sda).1 =~= pulse_train(n as nat).push(LineAction::ReadSda) + stop_actions(n));
    assert((4 * n + 7) as nat == k + 6);
}

/// A device that does not let go within eight pulses gets nine, whatever SDA does then, and a STOP.
pub proof fn law_nine_pulses_at_most(sda: spec_fn(u32) -> bool)
    requires
        forall|i: u32| i < 9 ==> !#[trigger] sda(i),
    ensures
        acted(42, sda).1 == pulse_train(9) + stop_actions(9),
{
    assert(!sda(0));
    pulsed(9, sda);
    assert(acted(38, sda).0 == (BusClear { place: Place::StopScl, pulses: 9 }));
    assert(acted(39, sda).0 == (BusClear { place: Place::StopSda, pulses: 9 }));
    assert(acted(40, sda).0 == (BusClear { place: Place::StopWait, pulses: 9 }));
    assert(acted(41, sda).0 == (BusClear { place: Place::Finished, pulses: 9 }));
    assert(acted(42, sda).1 =~= pulse_train(9) + stop_actions(9));
}

} // verus!
