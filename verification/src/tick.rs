//! One tick, in order.

use vstd::prelude::*;

use crate::game::{ready_to_start, Game};
use crate::measure::Real;
use crate::player::Player;
use crate::protocol::{GameEvent, GameStatus};

verus! {

/// The parts of a tick.
///
/// The aircraft fly after the ground and before the weapons, so a bomb released
/// this tick leaves from where the aircraft actually is. Hulls are parted before
/// weapons and capture, so both read where they actually ended up.
#[derive(Clone, Copy, Debug, PartialEq, Eq, Structural)]
pub enum Phase {
    Vehicles,
    Planes,
    Collisions,
    Weapons,
    Sentinels,
    Projectiles,
    Economy,
    Capture,
    Respawns,
    Victory,
}

impl Phase {
    /// The parts of a tick that are played, in order. Once a match is finished,
    /// projectiles finish flying and everything else stops.
    pub open spec fn played(status: GameStatus) -> Seq<Phase> {
        if status == GameStatus::Finished {
            seq![Phase::Projectiles]
        } else {
            seq![
                Phase::Vehicles,
                Phase::Planes,
                Phase::Collisions,
                Phase::Weapons,
                Phase::Sentinels,
                Phase::Projectiles,
                Phase::Economy,
                Phase::Capture,
                Phase::Respawns,
                Phase::Victory,
            ]
        }
    }

    /// The parts of a tick that are played, in order.
    pub fn schedule(status: GameStatus) -> (r: Vec<Phase>)
        ensures
            status == GameStatus::Finished ==> r@.len() == 1 && r@[0] == Phase::Projectiles,
            status != GameStatus::Finished ==> {
                &&& r@.len() == 10
                &&& r@[0] == Phase::Vehicles && r@[1] == Phase::Planes && r@[2] == Phase::Collisions
                &&& r@[3] == Phase::Weapons && r@[4] == Phase::Sentinels && r@[5] == Phase::Projectiles
                &&& r@[6] == Phase::Economy && r@[7] == Phase::Capture && r@[8] == Phase::Respawns
                &&& r@[9] == Phase::Victory
            },
            r@ == Phase::played(status),
    {
        let mut out: Vec<Phase> = Vec::new();
        if status == GameStatus::Finished {
            out.push(Phase::Projectiles);
        } else {
            out.push(Phase::Vehicles);
            out.push(Phase::Planes);
            out.push(Phase::Collisions);
            out.push(Phase::Weapons);
            out.push(Phase::Sentinels);
            out.push(Phase::Projectiles);
            out.push(Phase::Economy);
            out.push(Phase::Capture);
            out.push(Phase::Respawns);
            out.push(Phase::Victory);
        }
        out
    }
}

/// The players with their input a tick older.
pub open spec fn players_aged(players: Seq<Option<Player>>, ages: Seq<Real>) -> Seq<Option<Player>> {
    Seq::new(
        players.len(),
        |i: int|
            match players[i] {
                Some(p) => Some(Player { input_age: ages[i], ..p }),
                None => None,
            },
    )
}

/// What beginning a tick does to a match.
pub open spec fn begin_outcome(before: &Game, after: &Game, ages: Seq<Real>) -> bool {
    &&& *after == Game {
        tick: if before.tick == u32::MAX {
            0
        } else {
            (before.tick + 1) as u32
        },
        status: after.status,
        players: after.players,
        events: after.events,
        ..*before
    }
    &&& if ready_to_start(before.status, before.players@) {
        &&& after.status == GameStatus::Running
        &&& after.events@ =~= before.events@.push(GameEvent::MatchStarted)
    } else {
        &&& after.status == before.status
        &&& after.events@ =~= before.events@
    }
    &&& after.players@ =~= players_aged(before.players@, ages)
}

impl Game {
    /// Begins a tick: counts it, starts a match that has been waiting, and ages
    /// everybody's input. Hands back the parts of the tick to play.
    pub fn begin_step(&mut self, ages: &Vec<Real>) -> (r: Vec<Phase>)
        requires
            old(self).wf(),
            ages@.len() == old(self).players@.len(),
        ensures
            old(self).tick < u32::MAX ==> final(self).tick == old(self).tick + 1,
            old(self).tick == u32::MAX ==> final(self).tick == 0,
            final(self).players@.len() == old(self).players@.len(),
            forall|i: int|
                0 <= i < old(self).players@.len() ==> {
                    let (was, is) = (old(self).players@[i], #[trigger] final(self).players@[i]);
                    &&& is is Some <==> was is Some
                    &&& was is Some ==> is->0.input_age == ages@[i] && is->0 == Player {
                        input_age: is->0.input_age,
                        ..was->0
                    }
                },
            final(self).ore == old(self).ore && final(self).projectiles == old(self).projectiles,
            final(self).wf(),
            begin_outcome(old(self), final(self), ages@),
            r@ == Phase::played(final(self).status),
    {
        self.tick = self.tick.wrapping_add(1);
        self.update_status();
        let ghost mid = *self;
        let mut i: usize = 0;
        while i < self.players.len()
            invariant
                i <= self.players@.len(),
                mid.wf(),
                self.players@.len() == mid.players@.len(),
                ages@.len() == mid.players@.len(),
                *self == (Game { players: self.players, ..mid }),
                forall|k: int|
                    0 <= k < i ==> #[trigger] self.players@[k] == players_aged(
                        mid.players@,
                        ages@,
                    )[k],
                forall|k: int|
                    i <= k < self.players@.len() ==> #[trigger] self.players@[k]
                        == mid.players@[k],
            decreases self.players.len() - i,
        {
            if let Some(p) = self.players[i].as_mut() {
                p.input_age = ages[i];
            }
            i = i + 1;
        }
        assert(self.players@ =~= players_aged(mid.players@, ages@));
        Phase::schedule(self.status)
    }
}

/// A finished match stays finished: a tick of it flies what is in the air and
/// does nothing else.
pub proof fn lemma_a_finished_match_only_flies(game: Game)
    requires
        game.status == GameStatus::Finished,
    ensures
        Phase::played(game.status) == seq![Phase::Projectiles],
        !ready_to_start(game.status, game.players@),
{
}

/// A tick that is played has each of its parts once, and in an order in which
/// nothing reads what is not settled yet: whatever moves has moved before hulls
/// are parted, hulls are parted before anything fires, what was fired flies
/// before miners dig, and the match is judged last of all.
pub proof fn lemma_a_tick_is_played_in_order(status: GameStatus, i: int, j: int)
    requires
        status != GameStatus::Finished,
        0 <= i < j < Phase::played(status).len(),
    ensures
        ({
            let all = Phase::played(status);
            &&& all[i] != all[j]
            &&& all[j] != Phase::Vehicles && all[i] != Phase::Victory
            &&& all[j] == Phase::Planes ==> all[i] == Phase::Vehicles
            &&& all[i] == Phase::Collisions ==> all[j] != Phase::Planes
            &&& all[i] == Phase::Weapons ==> all[j] != Phase::Collisions && all[j]
                != Phase::Planes
            &&& all[i] == Phase::Sentinels ==> all[j] != Phase::Weapons
            &&& all[i] == Phase::Projectiles ==> all[j] != Phase::Weapons && all[j]
                != Phase::Sentinels
            &&& all[i] == Phase::Economy ==> all[j] != Phase::Projectiles
            &&& all[i] == Phase::Capture ==> all[j] != Phase::Economy && all[j]
                != Phase::Projectiles
            &&& all[i] == Phase::Respawns ==> all[j] == Phase::Victory
            &&& all.len() == 10
        }),
{
}

} // verus!
