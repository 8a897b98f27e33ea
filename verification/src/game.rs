//! The match: who is in it, what they own, and how it ends.
//!
//! This is the only place game state actually changes. Clients send intent and
//! render what comes back; everything that decides an outcome -- who was hit,
//! who owns which miner, whether a purchase can be afforded -- is decided by
//! the rules in this crate.
//!
//! Player state is keyed by a client-supplied token rather than by socket
//! address, so a player who drops out keeps their ore, power-ups, and vehicles
//! and resumes the same slot when they reconnect.

use std::collections::HashSet;

use vstd::prelude::*;

use crate::measure::{Real, Vec2};
use crate::player::{Player, Vehicle};
use crate::protocol::{
    DenyReason, GameEvent, GameStatus, HitFx, InputFrame, MinerMode, PlayerInfo, PowerUp,
    ProjectileKind, RejectReason, VehicleKind, CAPTURES_TO_WIN, MAX_PLAYERS,
};
use crate::rules::{Capacity, Rules, PLANE_FUEL};

verus! {

broadcast use vstd::std_specs::hash::group_hash_axioms;

/// Something in flight.
#[derive(Clone, Copy, Debug, PartialEq, Eq, Structural)]
pub struct Projectile {
    pub id: u16,
    pub kind: ProjectileKind,
    pub owner: u8,
    pub pos: Vec2,
    pub yaw: Real,
    pub speed: Real,
    pub life: Real,
    /// The height it flies at. Zero for everything but a cannon round.
    pub alt: Real,
}

/// A patch of ore, and what is left in it.
#[derive(Clone, Copy, Debug, PartialEq, Eq, Structural)]
pub struct OreDeposit {
    pub pos: Vec2,
    pub amount: Real,
    pub capacity: Real,
}

/// Impassable ground.
#[derive(Clone, Copy, Debug, PartialEq, Eq, Structural)]
pub struct Hill {
    pub pos: Vec2,
    pub radius: Real,
}

pub struct Game {
    pub rules: Rules,
    pub seed: u64,
    pub tick: u32,
    pub status: GameStatus,
    pub winner: Option<u8>,
    pub players: Vec<Option<Player>>,
    pub ore: Vec<OreDeposit>,
    /// Impassable ground. Made from the seed, never sent on the wire.
    pub hills: Vec<Hill>,
    pub projectiles: Vec<Projectile>,
    pub next_projectile_id: u16,
    /// Deposits whose amount changed since the last full ore sync.
    pub dirty_ore: HashSet<u16>,
    /// Drained and broadcast each tick.
    pub events: Vec<GameEvent>,
    /// Impacts from this tick, for clients to draw. Cosmetic, so they ride the
    /// unreliable snapshot and are dropped rather than queued.
    pub fx: Vec<HitFx>,
    /// Players who have ever joined, so a solo player is not declared winner.
    pub joined: u8,
    /// Cheat mode: everything on the build list is free, and a sortie never
    /// runs out of fuel. Deliberately match-wide, and deliberately survives a
    /// restart, because it is a way of looking at the game rather than part of
    /// a match.
    pub cheats: bool,
}

/// The slots that hold a player satisfying `pred`, in order, by player id.
pub open spec fn ids_where(players: Seq<Option<Player>>, pred: spec_fn(Player) -> bool) -> Seq<u8>
    decreases players.len(),
{
    if players.len() == 0 {
        Seq::empty()
    } else {
        let before = ids_where(players.drop_last(), pred);
        match players.last() {
            Some(p) => if pred(p) {
                before.push(p.id)
            } else {
                before
            },
            None => before,
        }
    }
}

/// Everyone whose client is connected.
pub open spec fn connected_ids(players: Seq<Option<Player>>) -> Seq<u8> {
    ids_where(players, |p: Player| p.connected)
}

/// Everyone on the field.
pub open spec fn standing_ids(players: Seq<Option<Player>>) -> Seq<u8> {
    ids_where(players, |p: Player| !p.eliminated)
}

/// Everyone who has taken enough miners to win outright.
pub open spec fn leader_ids(players: Seq<Option<Player>>) -> Seq<u8> {
    ids_where(players, |p: Player| p.captures >= CAPTURES_TO_WIN)
}

/// The roster as a list of what it says about each player.
pub open spec fn roster_spec(players: Seq<Option<Player>>) -> Seq<(u8, Seq<char>, bool)>
    decreases players.len(),
{
    if players.len() == 0 {
        Seq::empty()
    } else {
        let before = roster_spec(players.drop_last());
        match players.last() {
            Some(p) => before.push((p.id, p.name@, p.connected)),
            None => before,
        }
    }
}

/// Whether a list is the roster of the players.
pub open spec fn is_roster(list: Seq<PlayerInfo>, players: Seq<Option<Player>>) -> bool {
    &&& list.len() == roster_spec(players).len()
    &&& forall|i: int|
        0 <= i < list.len() ==> ((#[trigger] list[i]).id, list[i].name@, list[i].connected)
            == roster_spec(players)[i]
}

/// Whether somebody other than `token` is playing as `name`.
pub open spec fn name_taken(players: Seq<Option<Player>>, token: u64, name: Seq<char>) -> bool {
    name.len() > 0 && exists|i: int|
        0 <= i < players.len() && (#[trigger] players[i]) is Some && players[i]->0.token != token
            && players[i]->0.name@ == name
}

/// Whether slot `i` belongs to `token`.
pub open spec fn held_by(players: Seq<Option<Player>>, token: u64, i: int) -> bool {
    0 <= i < players.len() && players[i] is Some && players[i]->0.token == token
}

/// Whether `i` is the first slot nobody has.
pub open spec fn first_free(players: Seq<Option<Player>>, i: int) -> bool {
    &&& 0 <= i < players.len()
    &&& players[i] is None
    &&& forall|j: int| 0 <= j < i ==> (#[trigger] players[j]) is Some
}

/// A player back on a new connection: the same in everything but the input,
/// which starts over, and the name, if a new one was given.
pub open spec fn resumed(p: Player, name: String) -> Player {
    Player {
        name,
        connected: true,
        acked_input: 0,
        input: InputFrame::neutral(),
        input_age: 0,
        ..p
    }
}

/// What a join is answered.
pub open spec fn join_answer(
    players: Seq<Option<Player>>,
    status: GameStatus,
    token: u64,
    name: Seq<char>,
    r: Result<u8, DenyReason>,
) -> bool {
    if name_taken(players, token, name) {
        r == Err::<u8, DenyReason>(DenyReason::NameTaken)
    } else if exists|i: int| held_by(players, token, i) {
        r is Ok && held_by(players, token, r->Ok_0 as int)
    } else if status == GameStatus::Finished {
        r == Err::<u8, DenyReason>(DenyReason::MatchFinished)
    } else if exists|i: int| first_free(players, i) {
        r is Ok && first_free(players, r->Ok_0 as int)
    } else {
        r == Err::<u8, DenyReason>(DenyReason::ServerFull)
    }
}

/// A player carried into the next match: who they are stays, what they earned
/// goes.
pub open spec fn restarted(rules: &Rules, p: Player) -> Player {
    Player { connected: p.connected, ..Player::fresh(rules, p.id, p.token, p.name) }
}

/// The roster of the next match.
pub open spec fn restarted_all(rules: &Rules, players: Seq<Option<Player>>) -> Seq<Option<Player>> {
    Seq::new(
        players.len(),
        |i: int|
            match players[i] {
                Some(p) => Some(restarted(rules, p)),
                None => None,
            },
    )
}

/// Whether the match is waiting and has enough players to begin.
pub open spec fn ready_to_start(status: GameStatus, players: Seq<Option<Player>>) -> bool {
    status == GameStatus::Waiting && connected_ids(players).len() >= 2
}

/// What a player pays for an upgrade.
pub open spec fn asking_price(rules: &Rules, cheats: bool, powerup: PowerUp) -> u32 {
    if cheats {
        0
    } else {
        rules.prices.cost_spec(powerup)
    }
}

/// Why a purchase is declined, if it is.
pub open spec fn purchase_refusal(p: Player, cost: u32, powerup: PowerUp) -> Option<RejectReason> {
    if p.eliminated {
        Some(RejectReason::Eliminated)
    } else if powerup.held_spec(p.powerups) {
        Some(RejectReason::AlreadyOwned)
    } else if p.credits < cost {
        Some(RejectReason::NotEnoughCredits)
    } else {
        None
    }
}

/// One vehicle brought down to what it holds, if it is there.
pub open spec fn capped_option(v: Option<Vehicle>, holds: Capacity) -> Option<Vehicle> {
    match v {
        Some(v) => Some(v.capped(holds)),
        None => None,
    }
}

/// A player who has paid for an upgrade.
pub open spec fn purchased(
    rules: &Rules,
    p: Player,
    cost: u32,
    powerup: PowerUp,
    tank_holds: Capacity,
    miner_holds: Capacity,
) -> Player {
    let paid = Player { credits: (p.credits - cost) as u32, ..p };
    if powerup.is_consumable_spec() {
        Player {
            missiles: if p.missiles + rules.missiles_per_pack > u8::MAX {
                u8::MAX
            } else {
                (p.missiles + rules.missiles_per_pack) as u8
            },
            ..paid
        }
    } else {
        Player {
            powerups: p.powerups | powerup.bit_spec(),
            tank: capped_option(p.tank, tank_holds),
            miner: capped_option(p.miner, miner_holds),
            ..paid
        }
    }
}

/// Whether a sortie can be called up.
pub open spec fn can_launch(p: Player) -> bool {
    &&& !p.eliminated
    &&& p.plane is None
    &&& p.sortie_cooldown <= 0
    &&& PowerUp::Bomber.held_spec(p.powerups)
}

/// A sortie as it comes in over its owner's corner: already flying, and low in
/// the band.
pub open spec fn launched(rules: &Rules, id: u8, holds: Capacity) -> Vehicle {
    let corner = rules.corners@[id as int];
    let v = Vehicle::spawned(VehicleKind::Plane, corner.base, corner.inward, holds);
    Vehicle {
        mv: crate::measure::MoveState { speed: rules.plane_cruise, alt: rules.plane_altitude, ..v.mv },
        ..v
    }
}

/// Who has won, if anybody has.
pub open spec fn victor(players: Seq<Option<Player>>) -> Option<u8> {
    if standing_ids(players).len() == 1 {
        Some(standing_ids(players)[0])
    } else if leader_ids(players).len() > 0 {
        Some(leader_ids(players)[0])
    } else {
        None
    }
}

/// What a join does to a match.
pub open spec fn join_outcome(
    before: &Game,
    after: &Game,
    token: u64,
    name: Seq<char>,
    r: Result<u8, DenyReason>,
) -> bool {
    &&& join_answer(before.players@, before.status, token, name, r)
    &&& *after == Game {
        players: after.players,
        events: after.events,
        joined: after.joined,
        ..*before
    }
    &&& match r {
        Ok(id) => {
            let i = id as int;
            &&& after.events@ =~= before.events@.push(GameEvent::PlayerJoined { player: id })
            &&& after.players@[i] is Some
            &&& match before.players@[i] {
                Some(p) => {
                    &&& after.players@ =~= before.players@.update(
                        i,
                        Some(resumed(p, after.players@[i]->0.name)),
                    )
                    &&& after.players@[i]->0.name@ == if name.len() > 0 {
                        name
                    } else {
                        p.name@
                    }
                    &&& after.joined == before.joined
                },
                None => {
                    &&& after.players@ =~= before.players@.update(
                        i,
                        Some(Player::fresh(&before.rules, id, token, after.players@[i]->0.name)),
                    )
                    &&& after.players@[i]->0.name@ == if name.len() > 0 {
                        name
                    } else {
                        before.rules.color_names@[i]@
                    }
                    &&& after.joined == if before.joined < u8::MAX {
                        (before.joined + 1) as u8
                    } else {
                        u8::MAX
                    }
                },
            }
        },
        Err(_) => {
            &&& after.players@ =~= before.players@
            &&& after.events@ =~= before.events@
            &&& after.joined == before.joined
        },
    }
}

/// What a restart does to a match.
pub open spec fn restart_outcome(
    before: &Game,
    after: &Game,
    seed: u64,
    by: u8,
    ore: Vec<OreDeposit>,
    hills: Vec<Hill>,
) -> bool {
    let told = before.events@.push(GameEvent::MatchReset { world_seed: seed, by });
    &&& *after == Game {
        seed,
        ore,
        hills,
        winner: None,
        next_projectile_id: 0,
        status: after.status,
        players: after.players,
        projectiles: after.projectiles,
        dirty_ore: after.dirty_ore,
        events: after.events,
        fx: after.fx,
        ..*before
    }
    &&& after.players@ =~= restarted_all(&before.rules, before.players@)
    &&& after.projectiles@.len() == 0
    &&& after.dirty_ore@ =~= Set::<u16>::empty()
    &&& after.fx@.len() == 0
    &&& if connected_ids(before.players@).len() >= 2 {
        &&& after.status == GameStatus::Running
        &&& after.events@ =~= told.push(GameEvent::MatchStarted)
    } else {
        &&& after.status == GameStatus::Waiting
        &&& after.events@ =~= told
    }
}

/// What losing a client does to a match.
pub open spec fn disconnect_outcome(before: &Game, after: &Game, id: u8) -> bool {
    &&& *after == Game { players: after.players, events: after.events, ..*before }
    &&& match before.player_spec(id) {
        Some(p) if p.connected => {
            &&& after.players@ =~= before.players@.update(
                id as int,
                Some(Player { connected: false, ..p }),
            )
            &&& after.events@ =~= before.events@.push(GameEvent::PlayerLeft { player: id })
        },
        _ => {
            &&& after.players@ =~= before.players@
            &&& after.events@ =~= before.events@
        },
    }
}

/// What a new mode for a miner does to a match.
pub open spec fn mode_outcome(before: &Game, after: &Game, id: u8, mode: MinerMode) -> bool {
    &&& *after == Game { players: after.players, ..*before }
    &&& match before.player_spec(id) {
        Some(p) => after.players@ =~= before.players@.update(
            id as int,
            Some(Player { miner_mode: mode, stuck_for: 0, unstick_for: 0, ..p }),
        ),
        None => after.players@ =~= before.players@,
    }
}

/// What an input frame does to a match.
pub open spec fn input_outcome(before: &Game, after: &Game, id: u8, frame: InputFrame) -> bool {
    &&& *after == Game { players: after.players, ..*before }
    &&& match before.player_spec(id) {
        Some(p) if frame.tick >= p.acked_input || p.acked_input == 0 => after.players@
            =~= before.players@.update(
            id as int,
            Some(Player { acked_input: frame.tick, input: frame, input_age: 0, ..p }),
        ),
        _ => after.players@ =~= before.players@,
    }
}

/// What asking for an upgrade does to a match.
pub open spec fn purchase_outcome(
    before: &Game,
    after: &Game,
    id: u8,
    powerup: PowerUp,
    tank_holds: Capacity,
    miner_holds: Capacity,
) -> bool {
    &&& *after == Game { players: after.players, events: after.events, ..*before }
    &&& match before.player_spec(id) {
        Some(p) => {
            let cost = asking_price(&before.rules, before.cheats, powerup);
            match purchase_refusal(p, cost, powerup) {
                Some(reason) => {
                    &&& after.players@ =~= before.players@
                    &&& after.events@ =~= before.events@.push(
                        GameEvent::PurchaseRejected { powerup, reason },
                    )
                },
                None => {
                    let bought = purchased(
                        &before.rules,
                        p,
                        cost,
                        powerup,
                        tank_holds,
                        miner_holds,
                    );
                    &&& after.players@ =~= before.players@.update(id as int, Some(bought))
                    &&& after.events@ =~= before.events@.push(
                        GameEvent::PurchaseAccepted { powerup, credits: bought.credits },
                    )
                },
            }
        },
        None => {
            &&& after.players@ =~= before.players@
            &&& after.events@ =~= before.events@
        },
    }
}

/// What calling up a sortie does to a match.
pub open spec fn launch_outcome(before: &Game, after: &Game, id: u8, holds: Capacity) -> bool {
    &&& *after == Game { players: after.players, ..*before }
    &&& match before.player_spec(id) {
        Some(p) if can_launch(p) => after.players@ =~= before.players@.update(
            id as int,
            Some(Player { plane: Some(launched(&before.rules, id, holds)), ..p }),
        ),
        _ => after.players@ =~= before.players@,
    }
}

/// Whether a match has just been opened on a field, with nobody in it yet.
pub open spec fn opened(
    g: &Game,
    rules: Rules,
    seed: u64,
    ore: Seq<OreDeposit>,
    hills: Seq<Hill>,
) -> bool {
    &&& g.rules == rules
    &&& g.seed == seed
    &&& g.tick == 0
    &&& g.status == GameStatus::Waiting
    &&& g.winner is None
    &&& g.players@ =~= Seq::new(MAX_PLAYERS as nat, |i: int| None::<Player>)
    &&& g.ore@ =~= ore
    &&& g.hills@ =~= hills
    &&& g.projectiles@.len() == 0
    &&& g.next_projectile_id == 0
    &&& g.dirty_ore@ =~= Set::<u16>::empty()
    &&& g.events@.len() == 0
    &&& g.fx@.len() == 0
    &&& g.joined == 0
    &&& !g.cheats
}

/// What looking for a winner does to a match.
pub open spec fn victory_outcome(before: &Game, after: &Game) -> bool {
    &&& *after == Game {
        status: after.status,
        winner: after.winner,
        events: after.events,
        ..*before
    }
    &&& match victor(before.players@) {
        Some(winner) if before.status == GameStatus::Running && before.joined >= 2 => {
            &&& after.status == GameStatus::Finished
            &&& after.winner == Some(winner)
            &&& after.events@ =~= before.events@.push(GameEvent::GameOver { winner })
        },
        _ => {
            &&& after.status == before.status
            &&& after.winner == before.winner
            &&& after.events@ =~= before.events@
        },
    }
}

impl Game {
    /// Four slots, each holding nobody or the player numbered for it, no token
    /// in two of them, and no more ore than an update can number.
    pub open spec fn wf(&self) -> bool {
        &&& self.rules.wf()
        &&& slots_wf(self.players@)
        &&& self.ore@.len() <= 0x1_0000
    }

    /// The player in a slot.
    pub open spec fn player_spec(&self, id: u8) -> Option<Player> {
        if (id as int) < self.players@.len() {
            self.players@[id as int]
        } else {
            None
        }
    }

    /// A match nobody is in yet, on the field a seed gave.
    pub fn new(rules: Rules, seed: u64, ore: Vec<OreDeposit>, hills: Vec<Hill>) -> (r: Self)
        requires
            rules.wf(),
            ore@.len() <= 0x1_0000,
        ensures
            r.wf(),
            opened(&r, rules, seed, ore@, hills@),
    {
        let mut players: Vec<Option<Player>> = Vec::new();
        players.push(None);
        players.push(None);
        players.push(None);
        players.push(None);
        Game {
            rules,
            seed,
            tick: 0,
            status: GameStatus::Waiting,
            winner: None,
            players,
            ore,
            hills,
            projectiles: Vec::new(),
            next_projectile_id: 0,
            dirty_ore: HashSet::new(),
            events: Vec::new(),
            fx: Vec::new(),
            joined: 0,
            cheats: false,
        }
    }

    /// The player in a slot, if anybody is.
    pub fn player(&self, id: u8) -> (r: Option<&Player>)
        ensures
            (id as int) < self.players@.len() ==> (r is Some <==> self.players@[id as int] is Some),
            (id as int) >= self.players@.len() ==> r is None,
            r is Some ==> Some(*r->0) == self.players@[id as int],
            match r {
                Some(p) => self.player_spec(id) == Some(*p),
                None => self.player_spec(id) is None,
            },
    {
        if (id as usize) < self.players.len() {
            self.players[id as usize].as_ref()
        } else {
            None
        }
    }

    /// The player in a slot, to be changed in place.
    pub fn player_mut(&mut self, id: u8) -> (r: Option<&mut Player>)
        ensures
            (id as int) < old(self).players@.len() ==> (r is Some <==> old(
                self,
            ).players@[id as int] is Some),
            forall|k: int|
                0 <= k < old(self).players@.len() && k != id ==> #[trigger] final(self).players@[k] == old(
                    self,
                ).players@[k],
            match r {
                Some(p) => {
                    &&& old(self).player_spec(id) == Some(*p)
                    &&& final(self).players@ =~= old(self).players@.update(
                        id as int,
                        Some(*final(p)),
                    )
                    &&& *final(self) == Game { players: final(self).players, ..*old(self) }
                },
                None => {
                    &&& old(self).player_spec(id) is None
                    &&& final(self).players@ =~= old(self).players@
                    &&& *final(self) == Game { players: final(self).players, ..*old(self) }
                },
            },
    {
        if (id as usize) < self.players.len() {
            self.players[id as usize].as_mut()
        } else {
            None
        }
    }

    /// Everybody in the match, in slot order.
    pub fn roster(&self) -> (r: Vec<PlayerInfo>)
        ensures
            r@.len() <= self.players@.len(),
            forall|i: int|
                #![trigger self.players@[i]]
                0 <= i < self.players@.len() && self.players@[i] is Some ==> exists|k: int|
                    0 <= k < r@.len() && tells_of(#[trigger] r@[k], self.players@[i]->0),
            forall|k: int| 0 <= k < r@.len() ==> plays(#[trigger] r@[k], self.players@),
            is_roster(r@, self.players@),
    {
        let mut out: Vec<PlayerInfo> = Vec::new();
        let mut i: usize = 0;
        while i < self.players.len()
            invariant
                i <= self.players@.len(),
                is_roster(out@, self.players@.take(i as int)),
            decreases self.players.len() - i,
        {
            assert(self.players@.take(i + 1).drop_last() =~= self.players@.take(i as int));
            if let Some(p) = &self.players[i] {
                out.push(PlayerInfo { id: p.id, name: p.name.clone(), connected: p.connected });
            }
            i = i + 1;
        }
        assert(self.players@.take(self.players@.len() as int) =~= self.players@);
        proof {
            lemma_the_roster_lists_everybody(out@, self.players@);
        }
        out
    }

    /// How many clients are connected.
    pub fn connected_count(&self) -> (r: usize)
        ensures
            r <= self.players@.len(),
            r == 0 <==> forall|i: int|
                0 <= i < self.players@.len() && (#[trigger] self.players@[i]) is Some
                    ==> !self.players@[i]->0.connected,
            r >= 2 <==> exists|i: int, j: int|
                0 <= i < j < self.players@.len() && (#[trigger] self.players@[i]) is Some && (
                #[trigger] self.players@[j]) is Some && self.players@[i]->0.connected
                    && self.players@[j]->0.connected,
            r == connected_ids(self.players@).len(),
    {
        let mut n: usize = 0;
        let mut i: usize = 0;
        while i < self.players.len()
            invariant
                i <= self.players@.len(),
                n <= i,
                n == connected_ids(self.players@.take(i as int)).len(),
            decreases self.players.len() - i,
        {
            assert(self.players@.take(i + 1).drop_last() =~= self.players@.take(i as int));
            if let Some(p) = &self.players[i] {
                if p.connected {
                    n = n + 1;
                }
            }
            i = i + 1;
        }
        assert(self.players@.take(self.players@.len() as int) =~= self.players@);
        proof {
            lemma_who_is_connected(self.players@);
        }
        n
    }

    fn slot_by_token(&self, token: u64) -> (r: Option<usize>)
        ensures
            match r {
                Some(i) => i < self.players@.len() && self.players@[i as int] is Some
                    && self.players@[i as int]->0.token == token,
                None => forall|j: int|
                    0 <= j < self.players@.len() && (#[trigger] self.players@[j]) is Some
                        ==> self.players@[j]->0.token != token,
            },
            match r {
                Some(i) => held_by(self.players@, token, i as int) && forall|j: int|
                    0 <= j < i ==> !held_by(self.players@, token, j),
                None => forall|j: int| !held_by(self.players@, token, j),
            },
    {
        let mut i: usize = 0;
        while i < self.players.len()
            invariant
                i <= self.players@.len(),
                forall|j: int| 0 <= j < i ==> !held_by(self.players@, token, j),
            decreases self.players.len() - i,
        {
            if let Some(p) = &self.players[i] {
                if p.token == token {
                    return Some(i);
                }
            }
            i = i + 1;
        }
        assert forall|j: int| 0 <= j < self.players@.len() && (#[trigger] self.players@[j]) is Some implies self.players@[j]->0.token
            != token by {
            assert(!held_by(self.players@, token, j));
        }
        None
    }

    /// Finds the slot holding an identity, whether or not it is connected.
    pub fn player_by_token(&self, token: u64) -> (r: Option<&Player>)
        ensures
            match r {
                Some(p) => p.token == token && self.players@.contains(Some(*p)),
                None => forall|j: int|
                    0 <= j < self.players@.len() && (#[trigger] self.players@[j]) is Some
                        ==> self.players@[j]->0.token != token,
            },
            match r {
                Some(p) => exists|i: int|
                    {
                        &&& #[trigger] held_by(self.players@, token, i)
                        &&& self.players@[i] == Some(*p)
                        &&& forall|j: int| 0 <= j < i ==> !held_by(self.players@, token, j)
                    },
                None => forall|j: int| !held_by(self.players@, token, j),
            },
    {
        match self.slot_by_token(token) {
            Some(i) => self.players[i].as_ref(),
            None => None,
        }
    }

    fn has_other_named(&self, token: u64, name: &str) -> (r: bool)
        ensures
            r <==> exists|i: int|
                0 <= i < self.players@.len() && (#[trigger] self.players@[i]) is Some
                    && self.players@[i]->0.token != token && self.players@[i]->0.name@ == name@,
            name@.len() > 0 ==> r == name_taken(self.players@, token, name@),
    {
        let wanted = name.to_owned();
        let mut i: usize = 0;
        while i < self.players.len()
            invariant
                i <= self.players@.len(),
                wanted@ == name@,
                forall|j: int|
                    0 <= j < i ==> !((#[trigger] self.players@[j]) is Some
                        && self.players@[j]->0.token != token && self.players@[j]->0.name@
                        == name@),
            decreases self.players.len() - i,
        {
            if let Some(p) = &self.players[i] {
                if p.token != token && p.name == wanted {
                    return true;
                }
            }
            i = i + 1;
        }
        false
    }

    fn free_slot(&self) -> (r: Option<usize>)
        ensures
            match r {
                Some(i) => {
                    &&& i < self.players@.len()
                    &&& self.players@[i as int] is None
                    &&& forall|j: int| 0 <= j < i ==> (#[trigger] self.players@[j]) is Some
                },
                None => forall|j: int| 0 <= j < self.players@.len() ==> (#[trigger] self.players@[j]) is Some,
            },
            match r {
                Some(i) => first_free(self.players@, i as int),
                None => forall|j: int| !first_free(self.players@, j),
            },
    {
        let mut i: usize = 0;
        while i < self.players.len()
            invariant
                i <= self.players@.len(),
                forall|j: int| 0 <= j < i ==> (#[trigger] self.players@[j]) is Some,
            decreases self.players.len() - i,
        {
            if self.players[i].is_none() {
                return Some(i);
            }
            i = i + 1;
        }
        None
    }

    /// Admits a player, resuming an existing slot when the token is recognised.
    ///
    /// Returning the same slot for a known token is what makes a dropped
    /// connection recoverable: ore, power-ups, and both vehicles are exactly
    /// where they were left. A name belongs to one player for the length of a
    /// match, since it is what a client's identity is made from. A finished
    /// match takes nobody new.
    pub fn join(&mut self, token: u64, name: &str) -> (r: Result<u8, DenyReason>)
        requires
            old(self).wf(),
        ensures
            match r {
                Ok(id) => {
                    &&& old(self).players@[id as int] is Some ==> final(self).joined == old(self).joined
                    &&& old(self).players@[id as int] is None && old(self).joined < u8::MAX ==> final(self).joined == old(self).joined + 1
                },
                Err(_) => final(self).joined == old(self).joined && final(self).events@ =~= old(
                    self,
                ).events@,
            },
            r == Err::<u8, DenyReason>(DenyReason::NameTaken) <==> name@.len() > 0 && exists|i: int|
                0 <= i < old(self).players@.len() && (#[trigger] old(self).players@[i]) is Some && old(
                    self,
                ).players@[i]->0.token != token && old(self).players@[i]->0.name@ == name@,
            match r {
                Ok(id) => {
                    let q = final(self).players@[id as int]->0;
                    &&& (id as int) < final(self).players@.len() && final(self).players@[id as int] is Some
                    &&& q.token == token && q.connected && q.id == id
                    &&& q.acked_input == 0 && q.input_age == 0
                    &&& !q.input.fire_primary && !q.input.fire_secondary && q.input.throttle == 0
                    &&& name@.len() > 0 ==> q.name@ == name@
                    &&& final(self).events@.last() == GameEvent::PlayerJoined { player: id }
                    &&& final(self).events@.len() == old(self).events@.len() + 1
                    &&& old(self).players@[id as int] is None ==> {
                        &&& old(self).status != GameStatus::Finished
                        &&& q.credits == old(self).rules.starting_credits && q.captures == 0
                        &&& q.missiles == old(self).rules.starting_missiles
                        &&& q.tank is Some && q.miner is Some && q.plane is None && !q.eliminated
                        &&& forall|j: int|
                            0 <= j < id ==> (#[trigger] old(self).players@[j]) is Some
                        &&& forall|j: int|
                            0 <= j < old(self).players@.len() && (#[trigger] old(self).players@[j]) is Some
                                ==> old(self).players@[j]->0.token != token
                    }
                    &&& old(self).players@[id as int] is Some ==> old(self).players@[id as int]->0.token
                        == token
                    &&& forall|k: int|
                        0 <= k < old(self).players@.len() && k != id ==> #[trigger] final(self).players@[k]
                            == old(self).players@[k]
                },
                Err(reason) => {
                    &&& final(self).players@ =~= old(self).players@
                    &&& reason == DenyReason::MatchFinished ==> old(self).status == GameStatus::Finished
                    &&& reason == DenyReason::ServerFull ==> forall|j: int|
                        0 <= j < old(self).players@.len() ==> (#[trigger] old(self).players@[j]) is Some
                    &&& reason == DenyReason::NameTaken || reason == DenyReason::MatchFinished || reason
                        == DenyReason::ServerFull
                },
            },
            final(self).wf(),
            join_outcome(old(self), final(self), token, name@, r),
    {
        let named = name.unicode_len() > 0;
        if named && self.has_other_named(token, name) {
            return Err(DenyReason::NameTaken);
        }
        if let Some(i) = self.slot_by_token(token) {
            proof {
                assert(held_by(self.players@, token, i as int));
            }
            if let Some(p) = self.players[i].as_mut() {
                p.connected = true;
                if named {
                    p.name = name.to_owned();
                }
                p.acked_input = 0;
                p.input = InputFrame::default();
                p.input_age = 0;
            }
            let id = i as u8;
            self.events.push(GameEvent::PlayerJoined { player: id });
            return Ok(id);
        }
        if self.status == GameStatus::Finished {
            return Err(DenyReason::MatchFinished);
        }
        let slot: usize = match self.free_slot() {
            Some(slot) => slot,
            None => {
                return Err(DenyReason::ServerFull);
            },
        };
        let display: String = if named {
            name.to_owned()
        } else {
            self.rules.color_names[slot].clone()
        };
        let id = slot as u8;
        assert forall|j: int| 0 <= j < self.players@.len() && (#[trigger] self.players@[j]) is Some
            implies self.players@[j]->0.token != token by {
            assert(!held_by(self.players@, token, j));
        }
        assert(first_free(self.players@, slot as int));
        self.players[slot] = Some(Player::new(&self.rules, id, token, display));
        self.joined = self.joined.saturating_add(1);
        self.events.push(GameEvent::PlayerJoined { player: id });
        Ok(id)
    }

    /// Restarts the match on a fresh map, keeping who is in it.
    ///
    /// Everything a player *earned* goes: credits, power-ups, mined totals,
    /// captures, and both vehicles, which return to their pads. Everything that
    /// identifies them stays -- slot, name, token -- so a restart is not a
    /// reconnect and nobody has to rejoin.
    ///
    /// `tick` deliberately keeps counting. Clients discard any snapshot whose
    /// tick is not newer than the last one they hold, so winding it back would
    /// make them ignore the entire new match.
    pub fn restart(&mut self, seed: u64, by: u8, ore: Vec<OreDeposit>, hills: Vec<Hill>)
        requires
            old(self).wf(),
            ore@.len() <= 0x1_0000,
        ensures
            final(self).seed == seed && final(self).ore == ore && final(self).hills == hills,
            final(self).tick == old(self).tick && final(self).cheats == old(self).cheats,
            final(self).winner is None && final(self).next_projectile_id == 0,
            final(self).projectiles@.len() == 0 && final(self).fx@.len() == 0,
            final(self).events@.contains(GameEvent::MatchReset { world_seed: seed, by }),
            final(self).wf(),
            restart_outcome(old(self), final(self), seed, by, ore, hills),
    {
        self.seed = seed;
        self.ore = ore;
        self.hills = hills;
        self.dirty_ore.clear();
        self.fx.clear();
        self.projectiles.clear();
        self.next_projectile_id = 0;
        self.winner = None;
        self.status = GameStatus::Waiting;

        let ghost target = restarted_all(&old(self).rules, old(self).players@);
        let mut i: usize = 0;
        while i < self.players.len()
            invariant
                i <= self.players@.len(),
                old(self).wf(),
                self.players@.len() == old(self).players@.len(),
                target == restarted_all(&old(self).rules, old(self).players@),
                forall|k: int| 0 <= k < i ==> #[trigger] self.players@[k] == target[k],
                forall|k: int|
                    i <= k < self.players@.len() ==> #[trigger] self.players@[k] == old(self).players@[k],
                self.dirty_ore@ == Set::<u16>::empty(),
                self.fx@.len() == 0,
                self.projectiles@.len() == 0,
                self.events@ == old(self).events@,
                *self == (Game {
                    seed,
                    ore,
                    hills,
                    winner: None,
                    next_projectile_id: 0,
                    status: GameStatus::Waiting,
                    players: self.players,
                    projectiles: self.projectiles,
                    dirty_ore: self.dirty_ore,
                    fx: self.fx,
                    ..*old(self)
                }),
            decreases self.players.len() - i,
        {
            // Rebuilt rather than reset field by field, so nothing a player
            // carries can be forgotten here.
            let slot = self.players[i].take();
            if let Some(gone) = slot {
                let mut fresh = Player::new(&self.rules, gone.id, gone.token, gone.name);
                fresh.connected = gone.connected;
                self.players[i] = Some(fresh);
            }
            i = i + 1;
        }
        proof {
            assert(self.players@ =~= target);
            lemma_restart_keeps_connections(&old(self).rules, old(self).players@);
        }
        self.events.push(GameEvent::MatchReset { world_seed: seed, by });
        // A restart with enough players already present starts immediately.
        let ghost told = self.events@;
        self.update_status();
        assert(self.events@[told.len() - 1] == GameEvent::MatchReset { world_seed: seed, by });
    }

    /// Marks a player offline. Their state and vehicles stay on the field.
    pub fn disconnect(&mut self, id: u8)
        requires
            old(self).wf(),
        ensures
            match old(self).player_spec(id) {
                Some(p) => {
                    let q = final(self).players@[id as int]->0;
                    &&& final(self).players@[id as int] is Some
                    &&& !q.connected
                    &&& q == Player { connected: false, ..p }
                    &&& final(self).events@.len() == old(self).events@.len() + if p.connected {
                        1int
                    } else {
                        0int
                    }
                    &&& p.connected ==> final(self).events@.last() == GameEvent::PlayerLeft { player: id }
                },
                None => final(self).players@ =~= old(self).players@ && final(self).events@ =~= old(
                    self,
                ).events@,
            },
            forall|k: int|
                0 <= k < old(self).players@.len() && k != id ==> #[trigger] final(self).players@[k] == old(
                    self,
                ).players@[k],
            final(self).wf(),
            disconnect_outcome(old(self), final(self), id),
    {
        if let Some(p) = self.player_mut(id) {
            if p.connected {
                p.connected = false;
                self.events.push(GameEvent::PlayerLeft { player: id });
            }
        }
    }

    /// Changes what a player's miner does when left to itself.
    ///
    /// Takes effect on the next tick the player is not driving it; there is
    /// nothing to validate, since every mode is always available. A mode change
    /// is a fresh instruction, so whatever it was stuck against a moment ago is
    /// no longer the plan.
    pub fn set_miner_mode(&mut self, id: u8, mode: MinerMode)
        requires
            old(self).wf(),
        ensures
            old(self).player_spec(id) is Some ==> {
                let (p, q) = (old(self).player_spec(id)->0, final(self).players@[id as int]->0);
                &&& final(self).players@[id as int] is Some
                &&& q.miner_mode == mode && q.stuck_for == 0 && q.unstick_for == 0
                &&& q == Player { miner_mode: mode, stuck_for: 0, unstick_for: 0, ..p }
            },
            forall|k: int|
                0 <= k < old(self).players@.len() && k != id ==> #[trigger] final(self).players@[k] == old(
                    self,
                ).players@[k],
            final(self).wf(),
            mode_outcome(old(self), final(self), id, mode),
    {
        if let Some(p) = self.player_mut(id) {
            p.miner_mode = mode;
            p.stuck_for = 0;
            p.unstick_for = 0;
        }
    }

    /// Accepts an input frame, ignoring ones that arrive out of order.
    ///
    /// Inputs are unreliable and can be reordered by the network; replaying a
    /// stale frame would jerk the vehicle backwards.
    pub fn set_input(&mut self, id: u8, frame: InputFrame)
        requires
            old(self).wf(),
        ensures
            old(self).player_spec(id) is Some ==> {
                let (p, q) = (old(self).player_spec(id)->0, final(self).players@[id as int]->0);
                &&& final(self).players@[id as int] is Some
                &&& p.acked_input == 0 || p.acked_input <= frame.tick ==> q.input == frame && q.acked_input
                    == frame.tick && q.input_age == 0
                &&& p.acked_input > frame.tick ==> q == p
                &&& q == Player {
                    input: q.input,
                    acked_input: q.acked_input,
                    input_age: q.input_age,
                    ..p
                }
            },
            forall|k: int|
                0 <= k < old(self).players@.len() && k != id ==> #[trigger] final(self).players@[k] == old(
                    self,
                ).players@[k],
            final(self).wf(),
            input_outcome(old(self), final(self), id, frame),
    {
        if let Some(p) = self.player_mut(id) {
            if frame.tick >= p.acked_input || p.acked_input == 0 {
                p.acked_input = frame.tick;
                p.input = frame;
                p.input_age = 0;
            }
        }
    }

    /// Turns cheat mode on or off for everybody.
    pub fn toggle_cheats(&mut self)
        ensures
            *final(self) == (Game { cheats: !old(self).cheats, ..*old(self) }),
    {
        self.cheats = !self.cheats;
    }

    /// Buys an upgrade, or says why not.
    ///
    /// `tank_holds` and `miner_holds` are what the vehicles hold once the
    /// upgrade is theirs: capacity takes effect immediately rather than on the
    /// next respawn, which is what a player expects after paying.
    pub fn purchase(
        &mut self,
        id: u8,
        powerup: PowerUp,
        tank_holds: Capacity,
        miner_holds: Capacity,
    )
        requires
            old(self).wf(),
        ensures
            old(self).player_spec(id) is Some ==> {
                let (p, q) = (old(self).player_spec(id)->0, final(self).players@[id as int]->0);
                let price = if old(self).cheats {
                    0
                } else {
                    old(self).rules.prices.cost_spec(powerup)
                };
                let bought = !p.eliminated && !powerup.held_spec(p.powerups) && p.credits >= price;
                &&& final(self).players@[id as int] is Some
                &&& final(self).events@.len() == old(self).events@.len() + 1
                &&& !bought ==> q == p
                &&& p.eliminated ==> final(self).events@.last() == GameEvent::PurchaseRejected {
                    powerup,
                    reason: RejectReason::Eliminated,
                }
                &&& !p.eliminated && powerup.held_spec(p.powerups) ==> final(self).events@.last()
                    == GameEvent::PurchaseRejected { powerup, reason: RejectReason::AlreadyOwned }
                &&& !p.eliminated && !powerup.held_spec(p.powerups) && p.credits < price ==> final(self).events@.last() == GameEvent::PurchaseRejected {
                    powerup,
                    reason: RejectReason::NotEnoughCredits,
                }
                &&& bought ==> {
                    &&& q.credits + price == p.credits
                    &&& final(self).events@.last() == GameEvent::PurchaseAccepted {
                        powerup,
                        credits: q.credits,
                    }
                    &&& powerup == PowerUp::MissilePack ==> q.powerups == p.powerups && (p.missiles + old(
                        self,
                    ).rules.missiles_per_pack <= u8::MAX ==> q.missiles == p.missiles + old(
                        self,
                    ).rules.missiles_per_pack) && q.tank == p.tank && q.miner == p.miner
                    &&& powerup != PowerUp::MissilePack ==> q.missiles == p.missiles && q.powerups == (
                            p.powerups | powerup.bit_spec())
                    &&& powerup == PowerUp::MissilePack && p.missiles + old(self).rules.missiles_per_pack
                        > u8::MAX ==> q.missiles == u8::MAX
                    &&& powerup != PowerUp::MissilePack && p.tank is Some ==> q.tank->0.shield
                        <= tank_holds.shield && q.tank->0.hull <= tank_holds.hull && (p.tank->0.shield
                        <= tank_holds.shield ==> q.tank->0.shield == p.tank->0.shield) && (p.tank->0.hull
                        <= tank_holds.hull ==> q.tank->0.hull == p.tank->0.hull)
                    &&& powerup != PowerUp::MissilePack && p.miner is Some ==> q.miner->0.shield
                        <= miner_holds.shield && q.miner->0.hull <= miner_holds.hull && (p.miner->0.shield
                        <= miner_holds.shield ==> q.miner->0.shield == p.miner->0.shield) && (p.miner->0.hull
                        <= miner_holds.hull ==> q.miner->0.hull == p.miner->0.hull)
                    &&& q.plane == p.plane && q.captures == p.captures && q.ore_mined == p.ore_mined
                    &&& q.tank is Some <==> p.tank is Some
                    &&& q.miner is Some <==> p.miner is Some
                    &&& p.miner is Some ==> q.miner->0.cargo == p.miner->0.cargo && q.miner->0.mv
                        == p.miner->0.mv && q.miner->0.disabled == p.miner->0.disabled
                    &&& p.tank is Some ==> q.tank->0.mv == p.tank->0.mv && q.tank->0.hull <= p.tank->0.hull
                }
            },
            forall|k: int|
                0 <= k < old(self).players@.len() && k != id ==> #[trigger] final(self).players@[k] == old(
                    self,
                ).players@[k],
            final(self).wf(),
            purchase_outcome(old(self), final(self), id, powerup, tank_holds, miner_holds),
    {
        let cost: u32 = if self.cheats {
            0
        } else {
            self.rules.prices.cost(powerup)
        };
        let pack: u8 = self.rules.missiles_per_pack;
        let event: GameEvent;
        if let Some(p) = self.player_mut(id) {
            if p.eliminated {
                event = GameEvent::PurchaseRejected { powerup, reason: RejectReason::Eliminated };
            } else if powerup.held(p.powerups) {
                event = GameEvent::PurchaseRejected { powerup, reason: RejectReason::AlreadyOwned };
            } else if p.credits < cost {
                event = GameEvent::PurchaseRejected {
                    powerup,
                    reason: RejectReason::NotEnoughCredits,
                };
            } else {
                p.credits = p.credits - cost;
                if powerup.is_consumable() {
                    p.missiles = p.missiles.saturating_add(pack);
                } else {
                    p.powerups = p.powerups | powerup.bit();
                    if let Some(v) = p.tank.as_mut() {
                        v.cap(tank_holds);
                    }
                    if let Some(v) = p.miner.as_mut() {
                        v.cap(miner_holds);
                    }
                }
                event = GameEvent::PurchaseAccepted { powerup, credits: p.credits };
            }
        } else {
            return;
        }
        self.events.push(event);
    }

    /// Calls up a sortie, if the player has bought the aircraft and the last
    /// one is far enough behind them. `holds` is what the aircraft holds.
    ///
    /// Declines quietly. Every way this can fail is something the client
    /// already knows, so a rejection event here would only ever fire on a race,
    /// and a message about it would be noise.
    pub fn launch_plane(&mut self, id: u8, holds: Capacity)
        requires
            old(self).wf(),
        ensures
            old(self).player_spec(id) is Some ==> {
                let (p, q) = (old(self).player_spec(id)->0, final(self).players@[id as int]->0);
                let corner = old(self).rules.corners@[id as int];
                &&& final(self).players@[id as int] is Some
                &&& q == Player { plane: q.plane, ..p }
                &&& p.eliminated || p.plane is Some || p.sortie_cooldown > 0 || !PowerUp::Bomber.held_spec(
                    p.powerups,
                ) ==> q == p
                &&& !p.eliminated && p.plane is None && p.sortie_cooldown <= 0 && PowerUp::Bomber.held_spec(
                    p.powerups,
                ) ==> {
                    let v = q.plane->0;
                    &&& q.plane is Some
                    &&& v.mv.pos == corner.base && v.mv.yaw == corner.inward && v.mv.roll == 0
                    &&& v.mv.speed == old(self).rules.plane_cruise
                    &&& v.mv.alt == old(self).rules.plane_altitude
                    &&& v.shield == holds.shield && v.hull == holds.hull
                    &&& v.fuel == PLANE_FUEL && !v.disabled
                    &&& v.gun_cooldown == 0 && v.missile_cooldown == 0
                }
            },
            forall|k: int|
                0 <= k < old(self).players@.len() && k != id ==> #[trigger] final(self).players@[k] == old(
                    self,
                ).players@[k],
            final(self).wf(),
            launch_outcome(old(self), final(self), id, holds),
    {
        if (id as usize) < MAX_PLAYERS {
            let corner = self.rules.corners[id as usize];
            let cruise: Real = self.rules.plane_cruise;
            let altitude: Real = self.rules.plane_altitude;
            if let Some(p) = self.player_mut(id) {
                if !p.eliminated && p.plane.is_none() && p.sortie_cooldown <= 0
                    && PowerUp::Bomber.held(p.powerups) {
                    let mut plane = Vehicle::spawn(
                        VehicleKind::Plane,
                        corner.base,
                        corner.inward,
                        holds,
                    );
                    plane.mv.speed = cruise;
                    plane.mv.alt = altitude;
                    p.plane = Some(plane);
                }
            }
        }
    }

    /// Starts a match that has been waiting, once two players are here.
    pub fn update_status(&mut self)
        ensures
            old(self).status != GameStatus::Waiting ==> final(self).status == old(self).status && final(self).events@ =~= old(self).events@,
            old(self).status == GameStatus::Waiting ==> (final(self).status == GameStatus::Running
                <==> exists|i: int, j: int|
                0 <= i < j < old(self).players@.len() && (#[trigger] old(self).players@[i]) is Some && (
                #[trigger] old(self).players@[j]) is Some && old(self).players@[i]->0.connected && old(
                    self,
                ).players@[j]->0.connected),
            final(self).status == old(self).status || final(self).status == GameStatus::Running,
            *final(self) == (Game {
                status: final(self).status,
                events: final(self).events,
                ..*old(self)
            }),
            if ready_to_start(old(self).status, old(self).players@) {
                &&& final(self).status == GameStatus::Running
                &&& final(self).events@ == old(self).events@.push(GameEvent::MatchStarted)
            } else {
                &&& final(self).status == old(self).status
                &&& final(self).events@ == old(self).events@
            },
    {
        if self.status == GameStatus::Waiting && self.connected_count() >= 2 {
            self.status = GameStatus::Running;
            self.events.push(GameEvent::MatchStarted);
        }
    }

    /// Being the only one left on the field wins it, and so does taking three
    /// miners.
    ///
    /// Last one standing is the ending the game is actually about: you win by
    /// taking everybody else's miner. It is checked against who is on the field
    /// *now*, so in a two-player match one capture ends it. Being disconnected
    /// is deliberately not the same as being off the field -- the vehicles of a
    /// player who drops stay where they are and can still be taken, and a match
    /// should not change hands because somebody's wifi did.
    pub fn check_victory(&mut self)
        ensures
            final(self).status != old(self).status ==> {
                &&& old(self).status == GameStatus::Running && old(self).joined >= 2
                &&& final(self).status == GameStatus::Finished
                &&& final(self).winner is Some
                &&& final(self).events@.last() == GameEvent::GameOver { winner: final(self).winner->0 }
                &&& exists|i: int|
                    0 <= i < old(self).players@.len() && (#[trigger] old(self).players@[i]) is Some && old(
                        self,
                    ).players@[i]->0.id == final(self).winner->0 && (old(self).players@[i]->0.captures
                        >= CAPTURES_TO_WIN || (!old(self).players@[i]->0.eliminated && forall|k: int|
                        0 <= k < old(self).players@.len() && k != i && (
                        #[trigger] old(self).players@[k]) is Some ==> old(self).players@[k]->0.eliminated))
            },
            final(self).status == old(self).status ==> final(self).winner == old(self).winner && final(self).events@ =~= old(self).events@,
            old(self).status == GameStatus::Running && old(self).joined >= 2 && (exists|i: int|
                0 <= i < old(self).players@.len() && (#[trigger] old(self).players@[i]) is Some && old(
                    self,
                ).players@[i]->0.captures >= CAPTURES_TO_WIN) ==> final(self).status
                == GameStatus::Finished,
            victory_outcome(old(self), final(self)),
    {
        if self.status != GameStatus::Running || self.joined < 2 {
            return;
        }
        let mut standing: usize = 0;
        let mut last: u8 = 0;
        let mut leader: Option<u8> = None;
        let mut i: usize = 0;
        while i < self.players.len()
            invariant
                i <= self.players@.len(),
                standing <= i,
                standing == standing_ids(self.players@.take(i as int)).len(),
                standing > 0 ==> last == standing_ids(self.players@.take(i as int)).last(),
                match leader {
                    Some(id) => leader_ids(self.players@.take(i as int)).len() > 0 && id
                        == leader_ids(self.players@.take(i as int))[0],
                    None => leader_ids(self.players@.take(i as int)).len() == 0,
                },
            decreases self.players.len() - i,
        {
            assert(self.players@.take(i + 1).drop_last() =~= self.players@.take(i as int));
            if let Some(p) = &self.players[i] {
                if !p.eliminated {
                    standing = standing + 1;
                    last = p.id;
                }
                if leader.is_none() && p.captures >= CAPTURES_TO_WIN {
                    leader = Some(p.id);
                }
            }
            i = i + 1;
        }
        assert(self.players@.take(self.players@.len() as int) =~= self.players@);
        proof {
            lemma_who_has_won(self.players@);
        }
        let won: Option<u8> = if standing == 1 {
            Some(last)
        } else {
            leader
        };
        if let Some(winner) = won {
            self.status = GameStatus::Finished;
            self.winner = Some(winner);
            self.events.push(GameEvent::GameOver { winner });
        }
    }

    /// Called once per tick after every client has been served.
    pub fn clear_dirty_ore(&mut self)
        ensures
            *final(self) == (Game {
                dirty_ore: final(self).dirty_ore,
                fx: final(self).fx,
                ..*old(self)
            }),
            final(self).dirty_ore@ == Set::<u16>::empty(),
            final(self).fx@.len() == 0,
    {
        self.dirty_ore.clear();
        self.fx.clear();
    }
}

/// Four slots, each holding nobody or the player numbered for it, and no token
/// in two of them.
pub open spec fn slots_wf(players: Seq<Option<Player>>) -> bool {
    &&& players.len() == MAX_PLAYERS
    &&& forall|i: int| 0 <= i < players.len() && (#[trigger] players[i]) is Some ==> players[i]->0.id == i
    &&& forall|i: int, j: int|
        0 <= i < j < players.len() && (#[trigger] players[i]) is Some && (#[trigger] players[j]) is Some
            ==> players[i]->0.token != players[j]->0.token
}

/// Who is connected does not change with a restart.
proof fn lemma_restart_keeps_connections(rules: &Rules, players: Seq<Option<Player>>)
    ensures
        connected_ids(restarted_all(rules, players)) == connected_ids(players),
    decreases players.len(),
{
    let after = restarted_all(rules, players);
    if players.len() > 0 {
        lemma_restart_keeps_connections(rules, players.drop_last());
        assert(after.drop_last() =~= restarted_all(rules, players.drop_last()));
    }
}

/// Whether an id is that of a player who fits.
pub open spec fn is_of_one(
    players: Seq<Option<Player>>,
    pred: spec_fn(Player) -> bool,
    id: u8,
) -> bool {
    exists|i: int|
        0 <= i < players.len() && (#[trigger] players[i]) is Some && pred(players[i]->0)
            && players[i]->0.id == id
}

/// The players picked out are those who fit, each once: everybody who fits is
/// there, and nobody is there who does not.
pub proof fn lemma_everybody_who_fits(players: Seq<Option<Player>>, pred: spec_fn(Player) -> bool)
    ensures
        ids_where(players, pred).len() <= players.len(),
        forall|i: int|
            0 <= i < players.len() && (#[trigger] players[i]) is Some && pred(players[i]->0)
                ==> ids_where(players, pred).contains(players[i]->0.id),
        forall|k: int|
            0 <= k < ids_where(players, pred).len() ==> #[trigger] is_of_one(
                players,
                pred,
                ids_where(players, pred)[k],
            ),
        ids_where(players, pred).len() == 0 <==> forall|i: int|
            0 <= i < players.len() && (#[trigger] players[i]) is Some ==> !pred(players[i]->0),
        ids_where(players, pred).len() >= 2 <==> exists|i: int, j: int|
            0 <= i < j < players.len() && (#[trigger] players[i]) is Some && (
            #[trigger] players[j]) is Some && pred(players[i]->0) && pred(players[j]->0),
    decreases players.len(),
{
    if players.len() > 0 {
        let shorter = players.drop_last();
        let n = shorter.len() as int;
        lemma_everybody_who_fits(shorter, pred);
        let (before, all) = (ids_where(shorter, pred), ids_where(players, pred));
        assert(forall|i: int| 0 <= i < n ==> shorter[i] == players[i]);
        assert(players[n] == players.last());
        let fits = players[n] is Some && pred(players[n]->0);
        assert(all == if fits {
            before.push(players[n]->0.id)
        } else {
            before
        });
        assert forall|i: int| 0 <= i < players.len() && (#[trigger] players[i]) is Some && pred(
            players[i]->0,
        ) implies all.contains(players[i]->0.id) by {
            if i < n {
                assert(shorter[i] == players[i]);
                let k = choose|k: int| 0 <= k < before.len() && before[k] == players[i]->0.id;
                assert(all[k] == players[i]->0.id);
            } else {
                assert(all[before.len() as int] == players[i]->0.id);
            }
        }
        assert forall|k: int| 0 <= k < all.len() implies #[trigger] is_of_one(
            players,
            pred,
            all[k],
        ) by {
            if k < before.len() {
                assert(before[k] == all[k]);
                assert(is_of_one(shorter, pred, before[k]));
                let i = choose|i: int|
                    0 <= i < shorter.len() && (#[trigger] shorter[i]) is Some && pred(
                        shorter[i]->0,
                    ) && shorter[i]->0.id == before[k];
                assert(players[i] is Some);
            } else {
                assert(players[n] is Some);
            }
        }
        if all.len() == 0 {
            assert forall|i: int| 0 <= i < players.len() && (#[trigger] players[i]) is Some implies !pred(
                players[i]->0,
            ) by {
                if i < n {
                    assert(shorter[i] is Some);
                }
            }
        }
        if forall|i: int|
            0 <= i < players.len() && (#[trigger] players[i]) is Some ==> !pred(players[i]->0) {
            assert forall|i: int| 0 <= i < shorter.len() && (#[trigger] shorter[i]) is Some implies !pred(
                shorter[i]->0,
            ) by {
                assert(players[i] is Some);
            }
        }
        if all.len() >= 2 {
            if before.len() >= 2 {
                let (i, j) = choose|i: int, j: int|
                    0 <= i < j < shorter.len() && (#[trigger] shorter[i]) is Some && (
                    #[trigger] shorter[j]) is Some && pred(shorter[i]->0) && pred(shorter[j]->0);
                assert(players[i] is Some && players[j] is Some);
            } else {
                assert(before.len() == 1 && fits);
                assert(is_of_one(shorter, pred, before[0]));
                let i = choose|i: int|
                    0 <= i < shorter.len() && (#[trigger] shorter[i]) is Some && pred(
                        shorter[i]->0,
                    ) && shorter[i]->0.id == before[0];
                assert(players[i] is Some && players[n] is Some);
            }
        }
        if exists|i: int, j: int|
            0 <= i < j < players.len() && (#[trigger] players[i]) is Some && (
            #[trigger] players[j]) is Some && pred(players[i]->0) && pred(players[j]->0) {
            let (i, j) = choose|i: int, j: int|
                0 <= i < j < players.len() && (#[trigger] players[i]) is Some && (
                #[trigger] players[j]) is Some && pred(players[i]->0) && pred(players[j]->0);
            assert(shorter[i] is Some);
            if j < n {
                assert(shorter[j] is Some);
            } else {
                assert(before.contains(shorter[i]->0.id));
                assert(before.len() >= 1);
            }
        }
    }
}

/// Who is counted as connected is who is connected, on the field or off it.
pub proof fn lemma_who_is_connected(players: Seq<Option<Player>>)
    ensures
        connected_ids(players).len() <= players.len(),
        connected_ids(players).len() == 0 <==> forall|i: int|
            0 <= i < players.len() && (#[trigger] players[i]) is Some ==> !players[i]->0.connected,
        connected_ids(players).len() >= 2 <==> exists|i: int, j: int|
            0 <= i < j < players.len() && (#[trigger] players[i]) is Some && (
            #[trigger] players[j]) is Some && players[i]->0.connected && players[j]->0.connected,
        forall|i: int|
            0 <= i < players.len() && (#[trigger] players[i]) is Some && players[i]->0.connected
                ==> connected_ids(players).contains(players[i]->0.id),
{
    let pred = |p: Player| p.connected;
    lemma_everybody_who_fits(players, pred);
    assert(connected_ids(players) == ids_where(players, pred));
    if connected_ids(players).len() == 0 {
        assert forall|i: int| 0 <= i < players.len() && (#[trigger] players[i]) is Some implies !players[i]->0.connected by {
            assert(!pred(players[i]->0));
        }
    }
    if forall|i: int|
        0 <= i < players.len() && (#[trigger] players[i]) is Some ==> !players[i]->0.connected {
        assert forall|i: int| 0 <= i < players.len() && (#[trigger] players[i]) is Some implies !pred(
            players[i]->0,
        ) by {}
    }
    if connected_ids(players).len() >= 2 {
        let (i, j) = choose|i: int, j: int|
            0 <= i < j < players.len() && (#[trigger] players[i]) is Some && (
            #[trigger] players[j]) is Some && pred(players[i]->0) && pred(players[j]->0);
        assert(players[i]->0.connected && players[j]->0.connected);
    }
    if exists|i: int, j: int|
        0 <= i < j < players.len() && (#[trigger] players[i]) is Some && (
        #[trigger] players[j]) is Some && players[i]->0.connected && players[j]->0.connected {
        let (i, j) = choose|i: int, j: int|
            0 <= i < j < players.len() && (#[trigger] players[i]) is Some && (
            #[trigger] players[j]) is Some && players[i]->0.connected && players[j]->0.connected;
        assert(pred(players[i]->0) && pred(players[j]->0));
    }
    assert forall|i: int| 0 <= i < players.len() && (#[trigger] players[i]) is Some
        && players[i]->0.connected implies connected_ids(players).contains(players[i]->0.id) by {
        assert(pred(players[i]->0));
    }
}

/// Whoever has won is the only one on the field, or has taken enough miners; and
/// as soon as somebody has, somebody has won.
pub proof fn lemma_who_has_won(players: Seq<Option<Player>>)
    ensures
        victor(players) is Some ==> exists|i: int|
            0 <= i < players.len() && (#[trigger] players[i]) is Some && players[i]->0.id
                == victor(players)->0 && (players[i]->0.captures >= CAPTURES_TO_WIN || (
            !players[i]->0.eliminated && forall|k: int|
                0 <= k < players.len() && k != i && (#[trigger] players[k]) is Some
                    ==> players[k]->0.eliminated)),
        (exists|i: int|
            0 <= i < players.len() && (#[trigger] players[i]) is Some && players[i]->0.captures
                >= CAPTURES_TO_WIN) ==> victor(players) is Some,
{
    lemma_who_leads(players);
    if standing_ids(players).len() == 1 {
        lemma_who_is_left(players);
    }
}

proof fn lemma_who_leads(players: Seq<Option<Player>>)
    ensures
        leader_ids(players).len() > 0 ==> exists|i: int|
            0 <= i < players.len() && (#[trigger] players[i]) is Some && players[i]->0.id
                == leader_ids(players)[0] && players[i]->0.captures >= CAPTURES_TO_WIN,
        (exists|i: int|
            0 <= i < players.len() && (#[trigger] players[i]) is Some && players[i]->0.captures
                >= CAPTURES_TO_WIN) ==> leader_ids(players).len() > 0,
{
    let ahead = |p: Player| p.captures >= CAPTURES_TO_WIN;
    lemma_everybody_who_fits(players, ahead);
    let ids = leader_ids(players);
    assert(ids == ids_where(players, ahead));
    if ids.len() > 0 {
        let first = ids_where(players, ahead)[0];
        assert(is_of_one(players, ahead, first));
        let i = choose|i: int|
            0 <= i < players.len() && (#[trigger] players[i]) is Some && ahead(players[i]->0)
                && players[i]->0.id == first;
        assert(players[i]->0.captures >= CAPTURES_TO_WIN);
    }
    if exists|i: int|
        0 <= i < players.len() && (#[trigger] players[i]) is Some && players[i]->0.captures
            >= CAPTURES_TO_WIN {
        let i = choose|i: int|
            0 <= i < players.len() && (#[trigger] players[i]) is Some && players[i]->0.captures
                >= CAPTURES_TO_WIN;
        assert(ahead(players[i]->0));
    }
}

proof fn lemma_who_is_left(players: Seq<Option<Player>>)
    requires
        standing_ids(players).len() == 1,
    ensures
        exists|i: int|
            0 <= i < players.len() && (#[trigger] players[i]) is Some && players[i]->0.id
                == standing_ids(players)[0] && !players[i]->0.eliminated && forall|k: int|
                0 <= k < players.len() && k != i && (#[trigger] players[k]) is Some
                    ==> players[k]->0.eliminated,
{
    let up = |p: Player| !p.eliminated;
    lemma_everybody_who_fits(players, up);
    assert(standing_ids(players) == ids_where(players, up));
    let only = ids_where(players, up)[0];
    assert(is_of_one(players, up, only));
    let i = choose|i: int|
        0 <= i < players.len() && (#[trigger] players[i]) is Some && up(players[i]->0)
            && players[i]->0.id == only;
    assert(up(players[i]->0));
    assert forall|k: int| 0 <= k < players.len() && k != i && (#[trigger] players[k]) is Some implies players[k]->0.eliminated by {
        if up(players[k]->0) {
            if k < i {
                assert(players[k] is Some && players[i] is Some);
            } else {
                assert(players[i] is Some && players[k] is Some);
            }
            assert(false);
        }
    }
}

/// Whether an entry of the roster is a player's own.
pub open spec fn tells_of(info: PlayerInfo, p: Player) -> bool {
    &&& info.id == p.id
    &&& info.name@ == p.name@
    &&& info.connected == p.connected
}

/// Whether an entry of the roster is anybody's.
pub open spec fn plays(info: PlayerInfo, players: Seq<Option<Player>>) -> bool {
    exists|i: int|
        0 <= i < players.len() && (#[trigger] players[i]) is Some && tells_of(info, players[i]->0)
}

/// The roster lists everybody in the match under their own name, and nobody
/// else.
pub proof fn lemma_the_roster_lists_everybody(
    list: Seq<PlayerInfo>,
    players: Seq<Option<Player>>,
)
    requires
        is_roster(list, players),
    ensures
        list.len() <= players.len(),
        forall|i: int|
            #![trigger players[i]]
            0 <= i < players.len() && players[i] is Some ==> exists|k: int|
                0 <= k < list.len() && tells_of(#[trigger] list[k], players[i]->0),
        forall|k: int| 0 <= k < list.len() ==> plays(#[trigger] list[k], players),
    decreases players.len(),
{
    if players.len() > 0 {
        let shorter = players.drop_last();
        let n = shorter.len() as int;
        let (before, all) = (roster_spec(shorter), roster_spec(players));
        assert(players[n] == players.last());
        let m = before.len() as int;
        let part = list.take(m);
        assert forall|k: int| 0 <= k < part.len() implies (
            (#[trigger] part[k]).id,
            part[k].name@,
            part[k].connected,
        ) == before[k] by {
            assert(part[k] == list[k]);
            assert(all[k] == before[k]);
        }
        lemma_the_roster_lists_everybody(part, shorter);
        if players[n] is Some {
            let p = players[n]->0;
            assert(all[m] == (p.id, p.name@, p.connected));
            assert((list[m].id, list[m].name@, list[m].connected) == all[m]);
            assert(tells_of(list[m], p));
        }
        assert forall|i: int|
            #![trigger players[i]]
            0 <= i < players.len() && players[i] is Some implies exists|k: int|
            0 <= k < list.len() && tells_of(#[trigger] list[k], players[i]->0) by {
            if i < n {
                assert(shorter[i] is Some);
                let k = choose|k: int|
                    0 <= k < part.len() && tells_of(#[trigger] part[k], shorter[i]->0);
                assert(list[k] == part[k]);
            }
        }
        assert forall|k: int| 0 <= k < list.len() implies plays(#[trigger] list[k], players) by {
            if k < m {
                assert(part[k] == list[k]);
                assert(plays(part[k], shorter));
                let i = choose|i: int|
                    0 <= i < shorter.len() && (#[trigger] shorter[i]) is Some && tells_of(
                        part[k],
                        shorter[i]->0,
                    );
                assert(players[i] is Some);
            } else {
                assert(players[n] is Some);
            }
        }
    }
}

} // verus!
