//! Coming back: a destroyed tank after a few seconds, a captured player after a
//! minute.

use vstd::prelude::*;

use crate::game::Game;
use crate::measure::{gathered, lemma_gathered_from, lemma_gathered_holds, listed_if, Real};
use crate::player::{Player, Vehicle};
use crate::protocol::{GameEvent, VehicleKind, MAX_PLAYERS};
use crate::rules::{Capacity, Rules};

verus! {

/// A player's clocks with the tick counted, and what new vehicles of theirs
/// would hold.
#[derive(Clone, Copy, Debug, PartialEq, Eq, Structural)]
pub struct Wait {
    pub down_for: Real,
    pub respawn_timer: Real,
    pub tank_holds: Capacity,
    pub miner_holds: Capacity,
}

/// What a tick of waiting brings a player.
#[derive(Clone, Copy, Debug, PartialEq, Eq, Structural)]
pub enum Comeback {
    Nothing,
    Tank,
    Player,
}

impl Player {
    /// What a tick of waiting brings.
    pub open spec fn comeback(self, r: Wait) -> Comeback {
        if self.down_for > 0 {
            if r.down_for > 0 {
                Comeback::Nothing
            } else {
                Comeback::Player
            }
        } else if !self.eliminated && self.tank is None && r.respawn_timer <= 0 {
            Comeback::Tank
        } else {
            Comeback::Nothing
        }
    }

    /// A tank on its owner's pad, ready to go.
    pub open spec fn new_tank(self, rules: &Rules, r: Wait) -> Vehicle {
        let corner = rules.corners@[self.id as int];
        Vehicle::spawned(VehicleKind::Tank, corner.tank_start, corner.inward, r.tank_holds)
    }

    pub open spec fn new_miner(self, rules: &Rules, r: Wait) -> Vehicle {
        let corner = rules.corners@[self.id as int];
        Vehicle::spawned(VehicleKind::Miner, corner.miner_start, corner.inward, r.miner_holds)
    }

    /// A player once a tick of waiting is over.
    ///
    /// One whose miner was taken sits the minute out and then starts again:
    /// fresh vehicles, an empty bank, and every upgrade they had bought still
    /// theirs. Losing a miner costs a minute and everything liquid, not the
    /// match.
    pub open spec fn after_waiting(self, rules: &Rules, r: Wait) -> Player {
        match self.comeback(r) {
            Comeback::Player => Player {
                down_for: 0,
                eliminated: false,
                credits: 0,
                missiles: rules.starting_missiles,
                tank: Some(self.new_tank(rules, r)),
                miner: Some(self.new_miner(rules, r)),
                stuck_for: 0,
                unstick_for: 0,
                ..self
            },
            Comeback::Tank => Player {
                respawn_timer: r.respawn_timer,
                tank: Some(self.new_tank(rules, r)),
                ..self
            },
            Comeback::Nothing => if self.down_for > 0 {
                Player { down_for: r.down_for, ..self }
            } else if !self.eliminated && self.tank is None {
                Player { respawn_timer: r.respawn_timer, ..self }
            } else {
                self
            },
        }
    }

    /// Waits for one tick.
    pub fn wait(&mut self, rules: &Rules, r: Wait) -> (back: Comeback)
        requires
            rules.wf(),
            old(self).id < MAX_PLAYERS,
        ensures
            old(self).down_for > 0 && r.down_for > 0 ==> back == Comeback::Nothing && *final(self)
                == (Player { down_for: r.down_for, ..*old(self) }),
            back == Comeback::Player <==> old(self).down_for > 0 && r.down_for <= 0,
            back == Comeback::Tank <==> old(self).down_for <= 0 && !old(self).eliminated && old(
                self,
            ).tank is None && r.respawn_timer <= 0,
            back == Comeback::Player ==> {
                let corner = rules.corners@[old(self).id as int];
                &&& final(self).down_for == 0 && !final(self).eliminated
                &&& final(self).credits == 0 && final(self).missiles == rules.starting_missiles
                &&& final(self).stuck_for == 0 && final(self).unstick_for == 0
                &&& final(self).tank is Some && final(self).miner is Some
                &&& final(self).tank->0.mv.pos == corner.tank_start
                &&& final(self).tank->0.shield == r.tank_holds.shield
                &&& final(self).tank->0.hull == r.tank_holds.hull
                &&& final(self).miner->0.mv.pos == corner.miner_start
                &&& final(self).miner->0.shield == r.miner_holds.shield
                &&& final(self).miner->0.hull == r.miner_holds.hull
                &&& final(self).miner->0.cargo == 0 && !final(self).miner->0.disabled
                &&& final(self).powerups == old(self).powerups && final(self).captures == old(
                    self,
                ).captures && final(self).ore_mined == old(self).ore_mined
                &&& final(self).plane == old(self).plane && final(self).sentinel == old(self).sentinel
                &&& final(self).respawn_timer == old(self).respawn_timer
            },
            back == Comeback::Tank ==> {
                let corner = rules.corners@[old(self).id as int];
                &&& final(self).tank is Some
                &&& final(self).tank->0.mv.pos == corner.tank_start
                &&& final(self).tank->0.mv.yaw == corner.inward
                &&& final(self).tank->0.shield == r.tank_holds.shield
                &&& final(self).tank->0.hull == r.tank_holds.hull
                &&& *final(self) == (Player {
                    tank: final(self).tank,
                    respawn_timer: r.respawn_timer,
                    ..*old(self)
                })
            },
            old(self).down_for <= 0 && (old(self).eliminated || old(self).tank is Some) ==> *final(self)
                == *old(self),
            old(self).down_for <= 0 && !old(self).eliminated && old(self).tank is None && r.respawn_timer
                > 0 ==> *final(self) == (Player { respawn_timer: r.respawn_timer, ..*old(self) }),
            *final(self) == old(self).after_waiting(rules, r),
            back == old(self).comeback(r),
    {
        let corner = rules.corners[self.id as usize];
        if self.down_for > 0 {
            self.down_for = r.down_for;
            if self.down_for > 0 {
                return Comeback::Nothing;
            }
            self.down_for = 0;
            self.eliminated = false;
            self.credits = 0;
            self.missiles = rules.starting_missiles;
            self.tank = Some(
                Vehicle::spawn(VehicleKind::Tank, corner.tank_start, corner.inward, r.tank_holds),
            );
            self.miner = Some(
                Vehicle::spawn(
                    VehicleKind::Miner,
                    corner.miner_start,
                    corner.inward,
                    r.miner_holds,
                ),
            );
            // Whatever it was doing when it was taken is not a plan for the new
            // one.
            self.stuck_for = 0;
            self.unstick_for = 0;
            return Comeback::Player;
        }
        if self.eliminated || self.tank.is_some() {
            return Comeback::Nothing;
        }
        self.respawn_timer = r.respawn_timer;
        if self.respawn_timer > 0 {
            return Comeback::Nothing;
        }
        self.tank = Some(
            Vehicle::spawn(VehicleKind::Tank, corner.tank_start, corner.inward, r.tank_holds),
        );
        Comeback::Tank
    }
}

/// The players once a tick of waiting is over.
pub open spec fn players_after_waiting(
    rules: &Rules,
    players: Seq<Option<Player>>,
    waits: Seq<Wait>,
) -> Seq<Option<Player>> {
    Seq::new(
        players.len(),
        |i: int|
            match players[i] {
                Some(p) => Some(p.after_waiting(rules, waits[i])),
                None => None,
            },
    )
}

/// The tanks that came back, in slot order.
pub open spec fn tanks_back(players: Seq<Option<Player>>, waits: Seq<Wait>, n: nat) -> Seq<
    GameEvent,
> {
    gathered(
        n,
        |i: int|
            listed_if(
                players[i] is Some && players[i]->0.comeback(waits[i]) == Comeback::Tank,
                GameEvent::TankRespawned { player: players[i]->0.id },
            ),
    )
}

/// The players that came back, in slot order.
pub open spec fn players_back(players: Seq<Option<Player>>, waits: Seq<Wait>, n: nat) -> Seq<
    GameEvent,
> {
    gathered(
        n,
        |i: int|
            listed_if(
                players[i] is Some && players[i]->0.comeback(waits[i]) == Comeback::Player,
                GameEvent::PlayerReturned { player: players[i]->0.id },
            ),
    )
}

/// What a tick of waiting does to a match.
pub open spec fn respawn_outcome(before: &Game, after: &Game, waits: Seq<Wait>) -> bool {
    &&& *after == Game { players: after.players, events: after.events, ..*before }
    &&& after.players@ =~= players_after_waiting(&before.rules, before.players@, waits)
    &&& after.events@ =~= before.events@ + tanks_back(before.players@, waits, waits.len())
        + players_back(before.players@, waits, waits.len())
}

impl Game {
    /// Brings back whoever has waited long enough. The tanks are announced
    /// first, then the players.
    pub fn step_respawns(&mut self, waits: &Vec<Wait>)
        requires
            old(self).wf(),
            waits@.len() == old(self).players@.len(),
        ensures
            final(self).wf(),
            respawn_outcome(old(self), final(self), waits@),
    {
        let ghost after = players_after_waiting(&self.rules, self.players@, waits@);
        let mut back: Vec<GameEvent> = Vec::new();
        let mut i: usize = 0;
        while i < self.players.len()
            invariant
                i <= self.players@.len(),
                old(self).wf(),
                self.players@.len() == old(self).players@.len(),
                waits@.len() == old(self).players@.len(),
                after == players_after_waiting(&old(self).rules, old(self).players@, waits@),
                *self == (Game { players: self.players, events: self.events, ..*old(self) }),
                forall|k: int| 0 <= k < i ==> #[trigger] self.players@[k] == after[k],
                forall|k: int|
                    i <= k < self.players@.len() ==> #[trigger] self.players@[k] == old(
                        self,
                    ).players@[k],
                self.events@ =~= old(self).events@ + tanks_back(
                    old(self).players@,
                    waits@,
                    i as nat,
                ),
                back@ =~= players_back(old(self).players@, waits@, i as nat),
            decreases self.players.len() - i,
        {
            assert(self.players@[i as int] == old(self).players@[i as int]);
            let mut comeback = Comeback::Nothing;
            let player = i as u8;
            if let Some(p) = self.players[i].as_mut() {
                comeback = p.wait(&self.rules, waits[i]);
            }
            match comeback {
                Comeback::Nothing => {},
                Comeback::Tank => {
                    self.events.push(GameEvent::TankRespawned { player });
                },
                Comeback::Player => {
                    back.push(GameEvent::PlayerReturned { player });
                },
            }
            i = i + 1;
        }
        self.events.append(&mut back);
    }
}

/// A player who comes back keeps every upgrade they had bought, and who they
/// are.
pub proof fn lemma_coming_back_keeps_upgrades(p: Player, rules: &Rules, r: Wait)
    ensures
        p.after_waiting(rules, r).powerups == p.powerups,
        p.after_waiting(rules, r).captures == p.captures,
        p.after_waiting(rules, r).token == p.token,
        p.after_waiting(rules, r).name == p.name,
        p.after_waiting(rules, r).id == p.id,
        p.comeback(r) == Comeback::Player ==> p.after_waiting(rules, r).credits == 0
            && !p.after_waiting(rules, r).eliminated,
{
}

/// Everybody who comes back is told of, and nobody else is.
pub proof fn lemma_a_return_is_told(before: &Game, after: &Game, waits: Seq<Wait>, i: int)
    requires
        respawn_outcome(before, after, waits),
        waits.len() == before.players@.len(),
        0 <= i < before.players@.len(),
        before.players@[i] is Some,
    ensures
        ({
            let (p, q) = (before.players@[i]->0, after.players@[i]->0);
            &&& p.tank is None && q.tank is Some && !p.eliminated && p.down_for <= 0
                ==> after.events@.contains(GameEvent::TankRespawned { player: p.id })
            &&& p.eliminated && !q.eliminated ==> after.events@.contains(
                GameEvent::PlayerReturned { player: p.id },
            )
        }),
{
    let n = waits.len();
    let players = before.players@;
    let f = |i: int|
        listed_if(
            players[i] is Some && players[i]->0.comeback(waits[i]) == Comeback::Tank,
            GameEvent::TankRespawned { player: players[i]->0.id },
        );
    let g = |i: int|
        listed_if(
            players[i] is Some && players[i]->0.comeback(waits[i]) == Comeback::Player,
            GameEvent::PlayerReturned { player: players[i]->0.id },
        );
    let (tanks, back) = (tanks_back(players, waits, n), players_back(players, waits, n));
    let p = players[i]->0;
    if p.comeback(waits[i]) == Comeback::Tank {
        let e = GameEvent::TankRespawned { player: p.id };
        assert(f(i)[0] == e);
        lemma_gathered_holds(n, f, i, e);
        let k = choose|k: int| 0 <= k < tanks.len() && tanks[k] == e;
        assert(after.events@[before.events@.len() + k] == e);
    }
    if p.comeback(waits[i]) == Comeback::Player {
        let e = GameEvent::PlayerReturned { player: p.id };
        assert(g(i)[0] == e);
        lemma_gathered_holds(n, g, i, e);
        let k = choose|k: int| 0 <= k < back.len() && back[k] == e;
        assert(after.events@[before.events@.len() + tanks.len() + k] == e);
    }
}

/// A tank that is told of did come back, and so did a player.
pub proof fn lemma_what_is_told_of_came_back(
    players: Seq<Option<Player>>,
    waits: Seq<Wait>,
    rules: &Rules,
    e: GameEvent,
)
    requires
        waits.len() == players.len(),
        tanks_back(players, waits, waits.len()).contains(e) || players_back(
            players,
            waits,
            waits.len(),
        ).contains(e),
    ensures
        exists|i: int|
            #![trigger players[i]]
            0 <= i < players.len() && players[i] is Some && match e {
                GameEvent::TankRespawned { player } => players[i]->0.id == player
                    && players[i]->0.tank is None && players[i]->0.after_waiting(
                    rules,
                    waits[i],
                ).tank is Some,
                GameEvent::PlayerReturned { player } => players[i]->0.id == player
                    && players[i]->0.down_for > 0 && !players[i]->0.after_waiting(
                    rules,
                    waits[i],
                ).eliminated,
                _ => false,
            },
{
    let n = waits.len();
    let f = |i: int|
        listed_if(
            players[i] is Some && players[i]->0.comeback(waits[i]) == Comeback::Tank,
            GameEvent::TankRespawned { player: players[i]->0.id },
        );
    let g = |i: int|
        listed_if(
            players[i] is Some && players[i]->0.comeback(waits[i]) == Comeback::Player,
            GameEvent::PlayerReturned { player: players[i]->0.id },
        );
    if tanks_back(players, waits, n).contains(e) {
        lemma_gathered_from(n, f, e);
        let i = choose|i: int| 0 <= i < n && (#[trigger] f(i)).contains(e);
        let own = f(i);
        let z = choose|z: int| 0 <= z < own.len() && own[z] == e;
        assert(own[z] == e);
        assert(players[i] is Some);
    } else {
        lemma_gathered_from(n, g, e);
        let i = choose|i: int| 0 <= i < n && (#[trigger] g(i)).contains(e);
        let own = g(i);
        let z = choose|z: int| 0 <= z < own.len() && own[z] == e;
        assert(own[z] == e);
        assert(players[i] is Some);
    }
}

/// Waiting changes nothing but the wait: whoever is down is down for as long as
/// is left, whoever waits for a tank waits for as long as is left, and whoever
/// waits for nothing is left alone.
pub proof fn lemma_waiting_goes_on(p: Player, rules: &Rules, r: Wait)
    ensures
        p.down_for > 0 && r.down_for > 0 ==> p.after_waiting(rules, r) == (Player {
            down_for: r.down_for,
            ..p
        }),
        p.down_for <= 0 && !p.eliminated && p.tank is None && r.respawn_timer > 0
            ==> p.after_waiting(rules, r) == (Player { respawn_timer: r.respawn_timer, ..p }),
        p.down_for <= 0 && (p.eliminated || p.tank is Some) ==> p.after_waiting(rules, r) == p,
        p.down_for > 0 && r.down_for <= 0 ==> !p.after_waiting(rules, r).eliminated
            && p.after_waiting(rules, r).credits == 0 && p.after_waiting(rules, r).powerups
            == p.powerups,
{
}

} // verus!
