//! Local prediction of the vehicle a client is driving.
//!
//! Waiting a round trip to see your own steering is the difference between a
//! game that feels responsive and one that feels broken, so the client steps its
//! own vehicle immediately, and reconciles against authority as it arrives.

use std::collections::VecDeque;

use vstd::prelude::*;
use vstd::std_specs::vecdeque::*;

use crate::measure::{
    gathered, lemma_gathered_from, lemma_gathered_holds, listed_if, MoveState, Real, Vec2,
};
use crate::protocol::{InputFrame, VehicleSlot, VehicleSnapshot};

verus! {

/// How many unconfirmed inputs are kept for replaying.
pub const MAX_INPUT_HISTORY: usize = 128;

/// Prediction error above this is corrected instantly rather than smoothed:
/// something happened that local simulation could not have known about, such as
/// a respawn or a shove, and easing into it would look worse than a cut. Seven
/// units.
pub const SNAP_THRESHOLD: Real = 0x40e0_0000;

/// The two pieces of aircraft state that do not fit on a vehicle's snapshot.
#[derive(Clone, Copy, Debug, PartialEq, Eq, Structural)]
pub struct Air {
    pub roll: Real,
    pub alt: Real,
}

/// A correction, as measured.
#[derive(Debug)]
pub struct Correction {
    /// The state after each replayed input.
    pub path: Vec<MoveState>,
    /// The corrected state with the step under way taken off it again.
    pub carried: MoveState,
    /// How far the prediction was off.
    pub error: Vec2,
    pub error_length: Real,
    pub yaw_error: Real,
}

pub struct Prediction {
    pub active: bool,
    pub slot: VehicleSlot,
    pub state: MoveState,
    /// Where the vehicle was one simulation step ago, so a frame landing between
    /// two steps can be drawn between the two positions rather than snapped to
    /// the newer one.
    pub previous: MoveState,
    /// Inputs sent but not yet confirmed, replayed after every correction.
    pub history: VecDeque<InputFrame>,
    /// Residual error, held separately and decayed toward zero so corrections
    /// appear as a gentle drift rather than a jump.
    pub offset: Vec2,
    pub yaw_offset: Real,
}

/// How many inputs at the front have been confirmed.
pub open spec fn confirmed(history: Seq<InputFrame>, acked: u32) -> nat
    decreases history.len(),
{
    if history.len() > 0 && history[0].tick <= acked {
        confirmed(history.skip(1), acked) + 1
    } else {
        0
    }
}

/// The inputs the server has not confirmed.
pub open spec fn outstanding(history: Seq<InputFrame>, acked: u32) -> Seq<InputFrame> {
    history.skip(confirmed(history, acked) as int)
}

/// The inputs meant for one vehicle.
pub open spec fn meant_for(history: Seq<InputFrame>, slot: VehicleSlot, n: nat) -> Seq<InputFrame> {
    gathered(n, |i: int| listed_if(history[i].controlling == slot, history[i]))
}

/// The inputs replayed on top of an authoritative state.
pub open spec fn replayed(history: Seq<InputFrame>, slot: VehicleSlot, acked: u32) -> Seq<InputFrame> {
    let left = outstanding(history, acked);
    meant_for(left, slot, left.len())
}

proof fn lemma_confirmed_fit(history: Seq<InputFrame>, acked: u32)
    ensures
        confirmed(history, acked) <= history.len(),
    decreases history.len(),
{
    if history.len() > 0 && history[0].tick <= acked {
        lemma_confirmed_fit(history.skip(1), acked);
    }
}

impl Prediction {
    /// Nothing predicted yet.
    pub fn new() -> (r: Self)
        ensures
            !r.active,
            r.slot == VehicleSlot::Tank,
            r.history@.len() == 0,
            r.state == (MoveState { pos: Vec2 { x: 0, y: 0 }, yaw: 0, speed: 0, roll: 0, alt: 0 }),
            r.previous == r.state,
            r.offset == (Vec2 { x: 0, y: 0 }),
            r.yaw_offset == 0,
    {
        let still = MoveState { pos: Vec2 { x: 0, y: 0 }, yaw: 0, speed: 0, roll: 0, alt: 0 };
        Prediction {
            active: false,
            slot: VehicleSlot::Tank,
            state: still,
            previous: still,
            history: VecDeque::new(),
            offset: Vec2 { x: 0, y: 0 },
            yaw_offset: 0,
        }
    }

    /// Steps prediction forward with the input the client just sent. `stepped`
    /// is the vehicle's state one step further under it.
    pub fn apply(&mut self, frame: InputFrame, stepped: MoveState)
        requires
            old(self).history@.len() <= MAX_INPUT_HISTORY,
        ensures
            final(self).history@.len() <= MAX_INPUT_HISTORY,
            if !old(self).active {
                *final(self) == *old(self)
            } else if frame.controlling != old(self).slot {
                &&& *final(self) == Prediction {
                    active: false,
                    history: final(self).history,
                    ..*old(self)
                }
                &&& final(self).history@.len() == 0
            } else {
                &&& *final(self) == Prediction {
                    previous: old(self).state,
                    state: stepped,
                    history: final(self).history,
                    ..*old(self)
                }
                &&& final(self).history@ =~= if old(self).history@.len() < MAX_INPUT_HISTORY {
                    old(self).history@.push(frame)
                } else {
                    old(self).history@.skip(1).push(frame)
                }
            },
    {
        if !self.active {
            return;
        }
        if frame.controlling != self.slot {
            // The player switched vehicles; prediction restarts from whatever
            // the next snapshot says about the new one.
            self.active = false;
            self.history.clear();
            return;
        }
        self.previous = self.state;
        self.state = stepped;
        self.history.push_back(frame);
        if self.history.len() > MAX_INPUT_HISTORY {
            self.history.pop_front();
        }
    }

    /// The inputs to replay on top of an authoritative state that reflects
    /// everything up to `acked`.
    pub fn to_replay(&self, slot: VehicleSlot, acked: u32) -> (r: Vec<InputFrame>)
        ensures
            forall|k: int|
                0 <= k < r@.len() ==> (#[trigger] r@[k]).controlling == slot && self.history@.contains(
                    r@[k],
                ),
            forall|i: int|
                0 <= i < self.history@.len() && (#[trigger] self.history@[i]).tick > acked
                    && self.history@[i].controlling == slot ==> r@.contains(self.history@[i]),
            r@ == replayed(self.history@, slot, acked),
    {
        let n = self.history.len();
        let mut start: usize = 0;
        assert(self.history@.skip(0) =~= self.history@);
        while start < n && self.history[start].tick <= acked
            invariant
                start <= n,
                n == self.history@.len(),
                confirmed(self.history@, acked) == start + confirmed(
                    self.history@.skip(start as int),
                    acked,
                ),
            decreases n - start,
        {
            assert(self.history@.skip(start as int).skip(1) =~= self.history@.skip(start + 1));
            start = start + 1;
        }
        let ghost left = self.history@.skip(start as int);
        assert(left == outstanding(self.history@, acked));
        let mut out: Vec<InputFrame> = Vec::new();
        let mut i: usize = start;
        while i < n
            invariant
                start <= i <= n,
                n == self.history@.len(),
                left == self.history@.skip(start as int),
                out@ == meant_for(left, slot, (i - start) as nat),
            decreases n - i,
        {
            let frame = self.history[i];
            assert(left[i - start] == frame);
            if frame.controlling == slot {
                out.push(frame);
            }
            i = i + 1;
        }
        proof {
            lemma_the_unconfirmed_are_replayed(self.history@, slot, acked);
        }
        out
    }

    /// Re-anchors prediction on an authoritative state.
    ///
    /// The server's snapshot reflects input up to `acked`, so everything sent
    /// since then is replayed on top of it. Without the replay the vehicle would
    /// visibly rubber-band backwards by one round trip every snapshot.
    ///
    /// A correction is not a simulation step: the step it landed inside is still
    /// in progress, and the picture goes on sliding through it. Replaying gives
    /// the pair of positions to slide between. With nothing to replay there is
    /// no such pair, so the phase of the step already under way is carried over.
    pub fn reconcile(
        &mut self,
        authoritative: &VehicleSnapshot,
        slot: VehicleSlot,
        air: Air,
        acked: u32,
        c: &Correction,
    )
        requires
            c.path@.len() == replayed(old(self).history@, slot, acked).len(),
        ensures
            ({
                let anchor = MoveState {
                    pos: authoritative.pos,
                    yaw: authoritative.yaw,
                    speed: authoritative.speed,
                    roll: air.roll,
                    alt: air.alt,
                };
                let n = c.path@.len() as int;
                let eased = old(self).active && old(self).slot == slot && c.error_length
                    <= SNAP_THRESHOLD;
                &&& final(self).active
                &&& final(self).slot == slot
                &&& final(self).history@ =~= outstanding(old(self).history@, acked)
                &&& final(self).state == if n == 0 {
                    anchor
                } else {
                    c.path@[n - 1]
                }
                &&& final(self).previous == if n == 0 {
                    c.carried
                } else if n == 1 {
                    anchor
                } else {
                    c.path@[n - 2]
                }
                &&& final(self).offset == if eased {
                    c.error
                } else {
                    Vec2 { x: 0, y: 0 }
                }
                &&& final(self).yaw_offset == if eased {
                    c.yaw_error
                } else {
                    0
                }
            }),
    {
        let was_active = self.active && self.slot == slot;
        self.slot = slot;
        self.state = MoveState {
            pos: authoritative.pos,
            yaw: authoritative.yaw,
            speed: authoritative.speed,
            roll: air.roll,
            alt: air.alt,
        };

        let ghost all = self.history@;
        proof {
            lemma_confirmed_fit(all, acked);
            assert(all.skip(0) =~= all);
        }
        let ghost mut gone: int = 0;
        let mut more: bool = self.history.len() > 0 && self.history[0].tick <= acked;
        while more
            invariant
                0 <= gone <= all.len(),
                self.history@ =~= all.skip(gone),
                confirmed(all, acked) == gone + confirmed(self.history@, acked),
                more == (self.history@.len() > 0 && self.history@[0].tick <= acked),
                self.slot == slot,
                self.state == (MoveState {
                    pos: authoritative.pos,
                    yaw: authoritative.yaw,
                    speed: authoritative.speed,
                    roll: air.roll,
                    alt: air.alt,
                }),
            decreases self.history@.len(),
        {
            let ghost held = self.history@;
            self.history.pop_front();
            assert(self.history@ =~= held.skip(1));
            proof {
                gone = gone + 1;
            }
            more = self.history.len() > 0 && self.history[0].tick <= acked;
        }
        assert(self.history@ =~= outstanding(all, acked));

        let n = c.path.len();
        if n == 0 {
            self.previous = c.carried;
        } else {
            self.previous = if n == 1 {
                self.state
            } else {
                c.path[n - 2]
            };
            self.state = c.path[n - 1];
        }

        if was_active && c.error_length <= SNAP_THRESHOLD {
            // Fold the difference into the visual offset instead of moving the
            // vehicle, then let it decay away.
            self.offset = c.error;
            self.yaw_offset = c.yaw_error;
        } else {
            self.offset = Vec2 { x: 0, y: 0 };
            self.yaw_offset = 0;
        }
        self.active = true;
    }

    /// Lets the residual error decay. `offset` and `yaw_offset` are what is left
    /// of it.
    pub fn decay(&mut self, offset: Vec2, yaw_offset: Real)
        ensures
            *final(self) == (Prediction { offset, yaw_offset, ..*old(self) }),
    {
        self.offset = offset;
        self.yaw_offset = yaw_offset;
    }

    /// Follows another vehicle when the player switches.
    pub fn follow(&mut self, slot: VehicleSlot)
        ensures
            *final(self) == if old(self).slot == slot {
                *old(self)
            } else {
                Prediction { slot, active: false, ..*old(self) }
            },
    {
        if self.slot != slot {
            self.slot = slot;
            self.active = false;
        }
    }
}

/// What has been confirmed is not replayed: every input still held in front of
/// the first is later than the last confirmed, where inputs were sent in order.
pub proof fn lemma_only_the_unconfirmed_are_kept(history: Seq<InputFrame>, acked: u32)
    requires
        forall|i: int, j: int|
            0 <= i < j < history.len() ==> (#[trigger] history[i]).tick < (#[trigger] history[j]).tick,
    ensures
        forall|i: int|
            0 <= i < outstanding(history, acked).len() ==> (#[trigger] outstanding(
                history,
                acked,
            )[i]).tick > acked,
    decreases history.len(),
{
    lemma_confirmed_fit(history, acked);
    if history.len() > 0 {
        if history[0].tick <= acked {
            let rest = history.skip(1);
            lemma_confirmed_fit(rest, acked);
            assert(outstanding(history, acked) =~= outstanding(rest, acked));
            assert forall|i: int, j: int| 0 <= i < j < rest.len() implies (
            #[trigger] rest[i]).tick < (#[trigger] rest[j]).tick by {
                assert(rest[i] == history[i + 1] && rest[j] == history[j + 1]);
            }
            lemma_only_the_unconfirmed_are_kept(rest, acked);
        } else {
            assert(outstanding(history, acked) =~= history);
            assert forall|i: int| 0 <= i < history.len() implies (#[trigger] history[i]).tick
                > acked by {
                if i > 0 {
                    assert(history[0].tick < history[i].tick);
                }
            }
        }
    }
}

/// What is replayed was meant for that vehicle, and nothing that was is left out
/// unless it has been confirmed.
pub proof fn lemma_the_unconfirmed_are_replayed(
    history: Seq<InputFrame>,
    slot: VehicleSlot,
    acked: u32,
)
    ensures
        forall|k: int|
            0 <= k < replayed(history, slot, acked).len() ==> (#[trigger] replayed(
                history,
                slot,
                acked,
            )[k]).controlling == slot && history.contains(replayed(history, slot, acked)[k]),
        forall|i: int|
            0 <= i < history.len() && (#[trigger] history[i]).tick > acked
                && history[i].controlling == slot ==> replayed(history, slot, acked).contains(
                history[i],
            ),
{
    let left = outstanding(history, acked);
    let n = left.len();
    let f = |i: int| listed_if(left[i].controlling == slot, left[i]);
    let again = replayed(history, slot, acked);
    let gone = confirmed(history, acked) as int;
    lemma_confirmed_fit(history, acked);
    lemma_the_confirmed_are_old(history, acked);
    assert(again == gathered(n, f));
    assert forall|k: int| 0 <= k < again.len() implies (#[trigger] again[k]).controlling == slot
        && history.contains(again[k]) by {
        assert(again.contains(again[k]));
        lemma_gathered_from(n, f, again[k]);
        let i = choose|i: int| 0 <= i < n && (#[trigger] f(i)).contains(again[k]);
        let own = f(i);
        let z = choose|z: int| 0 <= z < own.len() && own[z] == again[k];
        assert(own[z] == left[i]);
        assert(left[i] == history[gone + i]);
    }
    assert forall|i: int| 0 <= i < history.len() && (#[trigger] history[i]).tick > acked
        && history[i].controlling == slot implies again.contains(history[i]) by {
        assert(i >= gone);
        assert(left[i - gone] == history[i]);
        assert(f(i - gone)[0] == history[i]);
        lemma_gathered_holds(n, f, i - gone, history[i]);
    }
}

/// Only what has been confirmed is let go.
pub proof fn lemma_the_confirmed_are_old(history: Seq<InputFrame>, acked: u32)
    ensures
        forall|i: int|
            0 <= i < confirmed(history, acked) && i < history.len() ==> (#[trigger] history[i]).tick
                <= acked,
        confirmed(history, acked) < history.len() ==> history[confirmed(
            history,
            acked,
        ) as int].tick > acked,
    decreases history.len(),
{
    if history.len() > 0 && history[0].tick <= acked {
        let rest = history.skip(1);
        lemma_the_confirmed_are_old(rest, acked);
        assert forall|i: int| 0 <= i < confirmed(history, acked) && i < history.len() implies (
        #[trigger] history[i]).tick <= acked by {
            if i > 0 {
                assert(rest[i - 1] == history[i]);
            }
        }
    }
}

} // verus!
