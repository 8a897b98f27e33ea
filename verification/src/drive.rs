//! Who drives what: the player, the autopilot, or nobody.

use vstd::prelude::*;

use crate::game::{Game, OreDeposit};
use crate::measure::{
    first_least, gathered, least_of, lemma_gathered_from, lemma_gathered_holds, lemma_least,
    listed_if, same_index, MoveState, Real, Vec2, MINUS_ONE, ONE,
};
use crate::player::{Player, Vehicle};
use crate::protocol::{MinerMode, VehicleSlot};
use crate::rules::{Rules, SHIELD_REGEN_DELAY, SORTIE_COOLDOWN};

verus! {

/// Who is driving a ground vehicle this tick.
#[derive(Clone, Copy, Debug, PartialEq, Eq, Structural)]
pub enum Driver {
    /// A wreck stands where it is.
    Nobody,
    Player { throttle: Real, steer: Real },
    /// Left alone, a miner works the field on whichever mode its player picked.
    Autopilot,
    /// An unattended tank coasts to a halt and holds station.
    Coasting,
}

/// What an autopilot asks for, and its clocks with the tick counted.
#[derive(Clone, Copy, Debug, PartialEq, Eq, Structural)]
pub struct Asked {
    pub throttle: Real,
    pub steer: Real,
    /// How fast the vehicle is actually going, either way.
    pub pace: Real,
    /// How long it will have been stuck, if it is.
    pub stuck_for: Real,
    /// How much longer it backs out, if it is backing out.
    pub unstick_for: Real,
}

/// A ground vehicle's tick, as driven.
#[derive(Clone, Copy, Debug, PartialEq, Eq, Structural)]
pub struct Drove {
    pub mv: MoveState,
    /// How hard it met a hillside.
    pub terrain_impact: Real,
    /// The turret turned for one tick.
    pub turret_yaw: Real,
    pub since_damage: Real,
    /// The shield with a tick of regeneration on it, up to what it holds.
    pub shield: Real,
    pub gun_cooldown: Real,
    pub missile_cooldown: Real,
}

/// A player's ground tick.
#[derive(Clone, Copy, Debug, PartialEq, Eq, Structural)]
pub struct Ground {
    pub tank: Drove,
    pub miner: Drove,
}

/// A hull driven into a hillside.
#[derive(Clone, Copy, Debug, PartialEq, Eq, Structural)]
pub struct Crash {
    pub player: u8,
    pub slot: VehicleSlot,
    pub impact: Real,
    /// The hill met the front of the hull, so that is the face the shield
    /// lights up on.
    pub bearing: Real,
}

/// An aircraft's tick, as flown, and its clocks with the tick counted.
#[derive(Clone, Copy, Debug, PartialEq, Eq, Structural)]
pub struct Flew {
    pub sortie_cooldown: Real,
    pub mv: MoveState,
    pub gun_cooldown: Real,
    pub missile_cooldown: Real,
    pub fuel: Real,
}

/// Each deposit with anything left in it, by how far off it is.
pub open spec fn deposit_keys(ore: Seq<OreDeposit>, distances: Seq<Real>) -> Seq<Option<Real>> {
    Seq::new(
        ore.len(),
        |i: int|
            if ore[i].amount > 0 {
                Some(distances[i])
            } else {
                None
            },
    )
}

/// The nearest deposit with anything left in it.
pub fn nearest_deposit(ore: &Vec<OreDeposit>, distances: &Vec<Real>) -> (r: Option<usize>)
    requires
        distances@.len() == ore@.len(),
    ensures
        match r {
            Some(i) => {
                &&& i < ore@.len()
                &&& ore@[i as int].amount > 0
                &&& forall|k: int|
                    0 <= k < ore@.len() && (#[trigger] ore@[k]).amount > 0 ==> distances@[i as int]
                        <= distances@[k]
                &&& forall|k: int|
                    0 <= k < i && (#[trigger] ore@[k]).amount > 0 ==> distances@[i as int]
                        < distances@[k]
            },
            None => forall|k: int| 0 <= k < ore@.len() ==> (#[trigger] ore@[k]).amount <= 0,
        },
        same_index(r, least_of(deposit_keys(ore@, distances@))),
        r is Some ==> r->0 < ore@.len() && ore@[r->0 as int].amount > 0,
{
    let mut keys: Vec<Option<Real>> = Vec::new();
    let mut k: usize = 0;
    while k < ore.len()
        invariant
            k <= ore@.len(),
            distances@.len() == ore@.len(),
            keys@ =~= deposit_keys(ore@, distances@).take(k as int),
        decreases ore.len() - k,
    {
        if ore[k].amount > 0 {
            keys.push(Some(distances[k]));
        } else {
            keys.push(None);
        }
        k = k + 1;
    }
    assert(keys@ =~= deposit_keys(ore@, distances@));
    let r = first_least(&keys);
    proof {
        assert forall|k: int| 0 <= k < ore@.len() && (#[trigger] ore@[k]).amount > 0 implies keys@[k]
            == Some(distances@[k]) by {}
        assert forall|k: int| 0 <= k < ore@.len() && r is None implies (#[trigger] ore@[k]).amount
            <= 0 by {
            assert(keys@[k] is None);
        }
    }
    r
}

impl Player {
    pub open spec fn driver_spec(&self, slot: VehicleSlot) -> Driver {
        let input = self.effective_input_spec();
        match self.vehicle_spec(slot) {
            None => Driver::Nobody,
            Some(v) => if v.disabled {
                Driver::Nobody
            } else if slot == input.controlling {
                Driver::Player { throttle: input.throttle, steer: input.steer }
            } else if slot == VehicleSlot::Miner {
                Driver::Autopilot
            } else {
                Driver::Coasting
            },
        }
    }

    /// Who is driving a vehicle this tick. Taking the miner over overrides its
    /// mode for free, and letting go resumes it.
    pub fn driver(&self, slot: VehicleSlot) -> (r: Driver)
        ensures
            r is Nobody <==> self.vehicle_spec(slot) is None || self.vehicle_spec(slot)->0.disabled,
            r is Player ==> self.effective_input_spec().controlling == slot,
            r is Player ==> r->throttle == self.effective_input_spec().throttle && r->steer
                == self.effective_input_spec().steer,
            r is Autopilot ==> slot == VehicleSlot::Miner,
            r is Coasting ==> slot != VehicleSlot::Miner,
            r is Autopilot || r is Coasting ==> self.effective_input_spec().controlling != slot,
            r == self.driver_spec(slot),
    {
        let input = self.effective_input();
        match self.vehicle(slot) {
            None => Driver::Nobody,
            Some(v) => {
                if v.disabled {
                    Driver::Nobody
                } else if slot == input.controlling {
                    Driver::Player { throttle: input.throttle, steer: input.steer }
                } else if slot == VehicleSlot::Miner {
                    Driver::Autopilot
                } else {
                    Driver::Coasting
                }
            },
        }
    }

    /// Where the tank's turret is turning: where the player aims while they are
    /// driving it, along the hull otherwise. `yaw` is the way the hull points.
    pub fn turret_goal(&self, yaw: Real) -> (r: Real)
        ensures
            r == if self.effective_input_spec().controlling == VehicleSlot::Tank {
                self.effective_input_spec().aim
            } else {
                yaw
            },
    {
        let input = self.effective_input();
        if input.controlling == VehicleSlot::Tank {
            input.aim
        } else {
            yaw
        }
    }

    /// What the yoke, the bank and the throttle of the aircraft are set to:
    /// throttle, steer and climb. Hands off the moment the player looks away:
    /// zero on the yoke is "hold this altitude", not "descend".
    pub fn flight_controls(&self) -> (r: (Real, Real, Real))
        ensures
            r == ({
                let input = self.effective_input_spec();
                if input.controlling == VehicleSlot::Plane {
                    (input.throttle, input.steer, input.climb)
                } else {
                    (0, 0, 0)
                }
            }),
    {
        let input = self.effective_input();
        if input.controlling == VehicleSlot::Plane {
            (input.throttle, input.steer, input.climb)
        } else {
            (0, 0, 0)
        }
    }

    /// How long the miner has been going nowhere. Asking for throttle and going
    /// nowhere means wedged -- shoved into a corner by another hull, or nosed
    /// into a slope.
    pub open spec fn wedged_for(self, rules: &Rules, asked: Asked) -> Real {
        if asked.throttle != 0 && asked.pace < rules.stall_speed {
            asked.stuck_for
        } else {
            0
        }
    }

    /// A player whose autopilot has been consulted.
    pub open spec fn after_autopilot(self, rules: &Rules, asked: Asked) -> Player {
        let wedged = self.wedged_for(rules, asked);
        if self.unstick_for > 0 {
            Player { stuck_for: wedged, unstick_for: asked.unstick_for, ..self }
        } else if wedged > ONE {
            Player { stuck_for: 0, unstick_for: ONE, ..self }
        } else {
            Player { stuck_for: wedged, ..self }
        }
    }

    /// Turns what the autopilot asks for into throttle and steer, minding
    /// whether the miner is stuck.
    ///
    /// A stuck miner backs out while turning, so the next attempt starts from a
    /// different heading instead of repeating this one.
    pub fn autopilot(&mut self, rules: &Rules, asked: Asked) -> (r: (Real, Real))
        ensures
            *final(self) == (Player {
                stuck_for: final(self).stuck_for,
                unstick_for: final(self).unstick_for,
                ..*old(self)
            }),
            old(self).unstick_for > 0 ==> final(self).unstick_for == asked.unstick_for && r == (
                MINUS_ONE,
                ONE,
            ),
            old(self).unstick_for <= 0 ==> r == (asked.throttle, asked.steer),
            old(self).unstick_for <= 0 && (asked.throttle == 0 || asked.pace >= rules.stall_speed)
                ==> final(self).stuck_for == 0 && final(self).unstick_for == old(self).unstick_for,
            old(self).unstick_for <= 0 && asked.throttle != 0 && asked.pace < rules.stall_speed ==> if asked.stuck_for
                > ONE {
                final(self).stuck_for == 0 && final(self).unstick_for == ONE
            } else {
                final(self).stuck_for == asked.stuck_for && final(self).unstick_for == old(
                    self,
                ).unstick_for
            },
            *final(self) == old(self).after_autopilot(rules, asked),
            r == if old(self).unstick_for > 0 {
                (MINUS_ONE, ONE)
            } else {
                (asked.throttle, asked.steer)
            },
    {
        if asked.throttle != 0 && asked.pace < rules.stall_speed {
            self.stuck_for = asked.stuck_for;
        } else {
            self.stuck_for = 0;
        }
        if self.unstick_for > 0 {
            self.unstick_for = asked.unstick_for;
            return (MINUS_ONE, ONE);
        }
        if self.stuck_for > ONE {
            self.stuck_for = 0;
            self.unstick_for = ONE;
        }
        (asked.throttle, asked.steer)
    }

    /// A player once a tick of flying is over.
    ///
    /// A sortie ends when the tank runs dry, and the wait for the next is timed
    /// from then rather than from the launch, so flying one badly and losing it
    /// early is not rewarded with a quicker second go.
    pub open spec fn after_flight(self, cheats: bool, r: Flew) -> Player {
        match self.plane {
            None => Player { sortie_cooldown: r.sortie_cooldown, ..self },
            Some(v) => {
                let flown = Vehicle {
                    mv: r.mv,
                    turret_yaw: r.mv.yaw,
                    gun_cooldown: r.gun_cooldown,
                    missile_cooldown: r.missile_cooldown,
                    fuel: if cheats {
                        v.fuel
                    } else {
                        r.fuel
                    },
                    ..v
                };
                if flown.fuel <= 0 {
                    Player { plane: None, sortie_cooldown: SORTIE_COOLDOWN, ..self }
                } else {
                    Player {
                        plane: Some(flown),
                        sortie_cooldown: r.sortie_cooldown,
                        ..self
                    }
                }
            },
        }
    }

    /// Flies the sortie for one tick, and ends it when the tank runs dry. It
    /// runs every tick whether or not the player is looking at it: let go of,
    /// an aircraft keeps flying straight and keeps burning fuel.
    pub fn fly(&mut self, cheats: bool, r: Flew)
        ensures
            *final(self) == (Player {
                plane: final(self).plane,
                sortie_cooldown: final(self).sortie_cooldown,
                ..*old(self)
            }),
            old(self).plane is None ==> final(self).plane is None && final(self).sortie_cooldown
                == r.sortie_cooldown,
            old(self).plane is Some ==> {
                let left = if cheats {
                    old(self).plane->0.fuel
                } else {
                    r.fuel
                };
                &&& final(self).plane is Some <==> left > 0
                &&& left <= 0 ==> final(self).sortie_cooldown == SORTIE_COOLDOWN
                &&& left > 0 ==> {
                    let (was, is) = (old(self).plane->0, final(self).plane->0);
                    &&& final(self).sortie_cooldown == r.sortie_cooldown
                    &&& is.fuel == left
                    &&& is.mv == r.mv
                    &&& is.turret_yaw == r.mv.yaw
                    &&& is.gun_cooldown == r.gun_cooldown && is.missile_cooldown == r.missile_cooldown
                    &&& is.shield == was.shield && is.hull == was.hull && is.cargo == was.cargo
                    &&& is.disabled == was.disabled && is.since_damage == was.since_damage
                }
            },
            *final(self) == old(self).after_flight(cheats, r),
    {
        self.sortie_cooldown = r.sortie_cooldown;
        let mut dry: bool = false;
        if let Some(plane) = self.plane.as_mut() {
            plane.mv = r.mv;
            // The aircraft has no turret of its own: the hull's heading is the
            // only bearing it has.
            plane.turret_yaw = r.mv.yaw;
            plane.gun_cooldown = r.gun_cooldown;
            plane.missile_cooldown = r.missile_cooldown;
            if !cheats {
                plane.fuel = r.fuel;
            }
            dry = plane.fuel <= 0;
        }
        if dry {
            self.plane = None;
            self.sortie_cooldown = SORTIE_COOLDOWN;
        }
    }
}

impl Vehicle {
    /// A ground vehicle once a tick of driving is over. Shields come back only
    /// after a lull, so sustained fire stays meaningful.
    pub open spec fn after_drive(self, slot: VehicleSlot, r: Drove) -> Vehicle {
        Vehicle {
            mv: if self.disabled {
                MoveState { speed: 0, ..self.mv }
            } else {
                r.mv
            },
            turret_yaw: if slot == VehicleSlot::Tank {
                r.turret_yaw
            } else {
                self.turret_yaw
            },
            since_damage: r.since_damage,
            shield: if r.since_damage >= SHIELD_REGEN_DELAY && !self.disabled {
                r.shield
            } else {
                self.shield
            },
            gun_cooldown: r.gun_cooldown,
            missile_cooldown: r.missile_cooldown,
            ..self
        }
    }

    /// Whether the tick ended against a hillside, hard enough to cost hull.
    /// Nosing up to one never does.
    pub open spec fn crashes(self, rules: &Rules, r: Drove) -> bool {
        !self.disabled && r.terrain_impact > rules.impact_threshold
    }

    /// Drives the vehicle for one tick. Says whether it crashed.
    pub fn drive(&mut self, rules: &Rules, slot: VehicleSlot, r: Drove) -> (crashed: bool)
        ensures
            old(self).disabled ==> final(self).mv.pos == old(self).mv.pos && final(self).mv.speed == 0
                && final(self).mv.yaw == old(self).mv.yaw && final(self).shield == old(self).shield
                && !crashed,
            !old(self).disabled ==> final(self).mv == r.mv,
            !old(self).disabled ==> (crashed <==> r.terrain_impact > rules.impact_threshold),
            !old(self).disabled && r.since_damage >= SHIELD_REGEN_DELAY ==> final(self).shield == r.shield,
            r.since_damage < SHIELD_REGEN_DELAY ==> final(self).shield == old(self).shield,
            slot == VehicleSlot::Tank ==> final(self).turret_yaw == r.turret_yaw,
            slot != VehicleSlot::Tank ==> final(self).turret_yaw == old(self).turret_yaw,
            final(self).since_damage == r.since_damage,
            final(self).gun_cooldown == r.gun_cooldown,
            final(self).missile_cooldown == r.missile_cooldown,
            final(self).hull == old(self).hull && final(self).cargo == old(self).cargo,
            final(self).disabled == old(self).disabled && final(self).capture_progress == old(
                self,
            ).capture_progress && final(self).fuel == old(self).fuel,
            *final(self) == old(self).after_drive(slot, r),
            crashed == old(self).crashes(rules, r),
    {
        let crashed = !self.disabled && r.terrain_impact > rules.impact_threshold;
        if self.disabled {
            self.mv.speed = 0;
        } else {
            self.mv = r.mv;
        }
        if slot == VehicleSlot::Tank {
            self.turret_yaw = r.turret_yaw;
        }
        self.since_damage = r.since_damage;
        if self.since_damage >= SHIELD_REGEN_DELAY && !self.disabled {
            self.shield = r.shield;
        }
        self.gun_cooldown = r.gun_cooldown;
        self.missile_cooldown = r.missile_cooldown;
        crashed
    }
}

/// One vehicle driven, if it is there.
pub open spec fn driven_option(v: Option<Vehicle>, slot: VehicleSlot, r: Drove) -> Option<Vehicle> {
    match v {
        Some(v) => Some(v.after_drive(slot, r)),
        None => None,
    }
}

/// The players once every ground vehicle has been driven.
pub open spec fn players_after_drive(players: Seq<Option<Player>>, ground: Seq<Ground>) -> Seq<
    Option<Player>,
> {
    Seq::new(
        players.len(),
        |i: int|
            match players[i] {
                Some(p) => Some(
                    Player {
                        tank: driven_option(p.tank, VehicleSlot::Tank, ground[i].tank),
                        miner: driven_option(p.miner, VehicleSlot::Miner, ground[i].miner),
                        ..p
                    },
                ),
                None => None,
            },
    )
}

/// One vehicle's crash, if it had one.
pub open spec fn crash_of(
    rules: &Rules,
    player: u8,
    slot: VehicleSlot,
    v: Option<Vehicle>,
    r: Drove,
) -> Seq<Crash> {
    listed_if(
        v is Some && v->0.crashes(rules, r),
        Crash { player, slot, impact: r.terrain_impact, bearing: r.mv.yaw },
    )
}

/// Every crash, in slot order, the tank's before the miner's.
pub open spec fn all_crashes(
    rules: &Rules,
    players: Seq<Option<Player>>,
    ground: Seq<Ground>,
    n: nat,
) -> Seq<Crash> {
    gathered(
        n,
        |i: int|
            match players[i] {
                Some(p) => crash_of(rules, p.id, VehicleSlot::Tank, p.tank, ground[i].tank)
                    + crash_of(rules, p.id, VehicleSlot::Miner, p.miner, ground[i].miner),
                None => Seq::empty(),
            },
    )
}

/// The players once every aircraft has flown.
pub open spec fn players_after_flight(
    cheats: bool,
    players: Seq<Option<Player>>,
    flown: Seq<Flew>,
) -> Seq<Option<Player>> {
    Seq::new(
        players.len(),
        |i: int|
            match players[i] {
                Some(p) => Some(p.after_flight(cheats, flown[i])),
                None => None,
            },
    )
}

/// What driving every ground vehicle for a tick does to a match.
pub open spec fn drive_outcome(before: &Game, after: &Game, ground: Seq<Ground>) -> bool {
    &&& *after == Game { players: after.players, ..*before }
    &&& after.players@ =~= players_after_drive(before.players@, ground)
}

/// What flying every sortie for a tick does to a match.
pub open spec fn fly_outcome(before: &Game, after: &Game, flown: Seq<Flew>) -> bool {
    &&& *after == Game { players: after.players, ..*before }
    &&& after.players@ =~= players_after_flight(before.cheats, before.players@, flown)
}

/// What consulting a player's autopilot does to a match.
pub open spec fn helm_outcome(before: &Game, after: &Game, player: u8, asked: Asked) -> bool {
    &&& *after == Game { players: after.players, ..*before }
    &&& match before.player_spec(player) {
        Some(p) => after.players@ =~= before.players@.update(
            player as int,
            Some(p.after_autopilot(&before.rules, asked)),
        ),
        None => after.players@ =~= before.players@,
    }
}

impl Game {
    /// Where an unattended miner heads, and how close counts as arrived.
    pub open spec fn course(&self, player: u8, capacity: Real, distances: Seq<Real>) -> Option<
        (Vec2, Real),
    > {
        let home = (self.rules.corners@[player as int].base, self.rules.home_arrival);
        match self.player_spec(player) {
            None => None,
            Some(p) => match p.miner {
                None => None,
                Some(m) => match p.miner_mode {
                    MinerMode::Stop => None,
                    MinerMode::Home => Some(home),
                    MinerMode::Auto => if m.cargo >= capacity {
                        Some(home)
                    } else {
                        match least_of(deposit_keys(self.ore@, distances)) {
                            Some(i) => Some((self.ore@[i].pos, self.rules.deposit_arrival)),
                            None => None,
                        }
                    },
                },
            },
        }
    }

    /// Where an unattended miner should head, and how close counts as arrived.
    /// `None` means hold station -- either the player asked for that, or there
    /// is nothing left to go and get.
    ///
    /// `capacity` is what the miner's hold takes: a full miner cannot mine, so
    /// the load is only worth anything once it is back at the pad. `distances`
    /// is how far each deposit is.
    pub fn autopilot_target(&self, player: u8, capacity: Real, distances: &Vec<Real>) -> (r: Option<
        (Vec2, Real),
    >)
        requires
            self.wf(),
            distances@.len() == self.ore@.len(),
        ensures
            match self.player_spec(player) {
                Some(p) if p.miner is Some => {
                    let home = (self.rules.corners@[player as int].base, self.rules.home_arrival);
                    &&& p.miner_mode == MinerMode::Stop ==> r is None
                    &&& p.miner_mode == MinerMode::Home ==> r == Some(home)
                    &&& p.miner_mode == MinerMode::Auto && p.miner->0.cargo >= capacity ==> r == Some(home)
                    &&& p.miner_mode == MinerMode::Auto && p.miner->0.cargo < capacity ==> match r {
                        Some(to) => exists|i: int|
                            #![trigger self.ore@[i]]
                            0 <= i < self.ore@.len() && self.ore@[i].amount > 0 && to.0 == self.ore@[i].pos
                                && to.1 == self.rules.deposit_arrival && forall|k: int|
                                0 <= k < self.ore@.len() && (#[trigger] self.ore@[k]).amount > 0
                                    ==> distances@[i] <= distances@[k],
                        None => forall|k: int|
                            0 <= k < self.ore@.len() ==> (#[trigger] self.ore@[k]).amount <= 0,
                    }
                },
                _ => r is None,
            },
            r == self.course(player, capacity, distances@),
    {
        match self.player(player) {
            None => None,
            Some(p) => match &p.miner {
                None => None,
                Some(m) => {
                    let home = (self.rules.corners[player as usize].base, self.rules.home_arrival);
                    match p.miner_mode {
                        MinerMode::Stop => None,
                        MinerMode::Home => Some(home),
                        MinerMode::Auto => {
                            if m.cargo >= capacity {
                                Some(home)
                            } else {
                                match nearest_deposit(&self.ore, distances) {
                                    Some(i) => Some((self.ore[i].pos, self.rules.deposit_arrival)),
                                    None => None,
                                }
                            }
                        },
                    }
                },
            },
        }
    }

    /// Turns what a player's autopilot asks for into throttle and steer, minding
    /// whether the miner is stuck. Nobody there asks for nothing.
    pub fn helm(&mut self, player: u8, asked: Asked) -> (r: (Real, Real))
        requires
            old(self).wf(),
        ensures
            old(self).player_spec(player) is Some ==> {
                let (p, q) = (old(self).player_spec(player)->0, final(self).players@[player as int]->0);
                &&& final(self).players@[player as int] is Some
                &&& p.unstick_for > 0 ==> q.unstick_for == asked.unstick_for
                &&& p.unstick_for <= 0 && (asked.throttle == 0 || asked.pace >= old(self).rules.stall_speed)
                    ==> q.stuck_for == 0
                &&& p.unstick_for <= 0 && asked.throttle != 0 && asked.pace < old(self).rules.stall_speed
                    && asked.stuck_for <= ONE ==> q.stuck_for == asked.stuck_for
                &&& p.unstick_for <= 0 && asked.throttle != 0 && asked.pace < old(self).rules.stall_speed
                    && asked.stuck_for > ONE ==> q.unstick_for == ONE
            },
            final(self).wf(),
            helm_outcome(old(self), final(self), player, asked),
            r == match old(self).player_spec(player) {
                Some(p) => if p.unstick_for > 0 {
                    (MINUS_ONE, ONE)
                } else {
                    (asked.throttle, asked.steer)
                },
                None => (0, 0),
            },
    {
        let index = player as usize;
        if index >= self.players.len() {
            return (0, 0);
        }
        if let Some(p) = self.players[index].as_mut() {
            p.autopilot(&self.rules, asked)
        } else {
            (0, 0)
        }
    }

    /// Drives every ground vehicle for one tick, and says who drove into a
    /// hill. Nobody is to blame for that but the driver, so it is charged to
    /// them: a tank lost this way is not a kill for anyone.
    pub fn step_vehicles(&mut self, ground: &Vec<Ground>) -> (crashes: Vec<Crash>)
        requires
            old(self).wf(),
            ground@.len() == old(self).players@.len(),
        ensures
            final(self).wf(),
            drive_outcome(old(self), final(self), ground@),
            crashes@ == all_crashes(
                &old(self).rules,
                old(self).players@,
                ground@,
                ground@.len(),
            ),
    {
        let mut crashes: Vec<Crash> = Vec::new();
        let ghost after = players_after_drive(self.players@, ground@);
        let mut i: usize = 0;
        while i < self.players.len()
            invariant
                i <= self.players@.len(),
                old(self).wf(),
                self.players@.len() == old(self).players@.len(),
                ground@.len() == old(self).players@.len(),
                after == players_after_drive(old(self).players@, ground@),
                *self == (Game { players: self.players, ..*old(self) }),
                forall|k: int| 0 <= k < i ==> #[trigger] self.players@[k] == after[k],
                forall|k: int|
                    i <= k < self.players@.len() ==> #[trigger] self.players@[k] == old(
                        self,
                    ).players@[k],
                crashes@ == all_crashes(&old(self).rules, old(self).players@, ground@, i as nat),
            decreases self.players.len() - i,
        {
            let g = ground[i];
            let ghost before = crashes@;
            if let Some(p) = self.players[i].as_mut() {
                let player: u8 = p.id;
                if let Some(v) = p.tank.as_mut() {
                    if v.drive(&self.rules, VehicleSlot::Tank, g.tank) {
                        crashes.push(
                            Crash {
                                player,
                                slot: VehicleSlot::Tank,
                                impact: g.tank.terrain_impact,
                                bearing: g.tank.mv.yaw,
                            },
                        );
                    }
                }
                if let Some(v) = p.miner.as_mut() {
                    if v.drive(&self.rules, VehicleSlot::Miner, g.miner) {
                        crashes.push(
                            Crash {
                                player,
                                slot: VehicleSlot::Miner,
                                impact: g.miner.terrain_impact,
                                bearing: g.miner.mv.yaw,
                            },
                        );
                    }
                }
            }
            i = i + 1;
            assert(crashes@ =~= all_crashes(
                &old(self).rules,
                old(self).players@,
                ground@,
                i as nat,
            ));
        }
        crashes
    }

    /// Flies every sortie for one tick. With cheats on none of them burns fuel.
    pub fn step_planes(&mut self, flown: &Vec<Flew>)
        requires
            old(self).wf(),
            flown@.len() == old(self).players@.len(),
        ensures
            final(self).wf(),
            fly_outcome(old(self), final(self), flown@),
    {
        let ghost after = players_after_flight(self.cheats, self.players@, flown@);
        let mut i: usize = 0;
        while i < self.players.len()
            invariant
                i <= self.players@.len(),
                old(self).wf(),
                self.players@.len() == old(self).players@.len(),
                flown@.len() == old(self).players@.len(),
                after == players_after_flight(old(self).cheats, old(self).players@, flown@),
                *self == (Game { players: self.players, ..*old(self) }),
                forall|k: int| 0 <= k < i ==> #[trigger] self.players@[k] == after[k],
                forall|k: int|
                    i <= k < self.players@.len() ==> #[trigger] self.players@[k] == old(
                        self,
                    ).players@[k],
            decreases self.players.len() - i,
        {
            if let Some(p) = self.players[i].as_mut() {
                p.fly(self.cheats, flown[i]);
            }
            i = i + 1;
        }
    }
}

/// A wreck goes nowhere, whatever the tick says.
pub proof fn lemma_a_wreck_stays_put(v: Vehicle, slot: VehicleSlot, r: Drove)
    requires
        v.disabled,
    ensures
        v.after_drive(slot, r).mv.pos == v.mv.pos,
        v.after_drive(slot, r).mv.speed == 0,
        v.after_drive(slot, r).shield == v.shield,
        v.after_drive(slot, r).disabled,
{
}

/// A miner told to stop is sent nowhere, and one told to go home is sent home.
pub proof fn lemma_miner_modes(g: &Game, player: u8, capacity: Real, distances: Seq<Real>)
    requires
        g.player_spec(player) is Some,
        g.player_spec(player)->0.miner is Some,
    ensures
        g.player_spec(player)->0.miner_mode == MinerMode::Stop ==> g.course(
            player,
            capacity,
            distances,
        ) is None,
        g.player_spec(player)->0.miner_mode == MinerMode::Home ==> g.course(
            player,
            capacity,
            distances,
        ) == Some((g.rules.corners@[player as int].base, g.rules.home_arrival)),
{
}

/// With cheats on a sortie is never ended by its fuel.
pub proof fn lemma_cheats_keep_a_sortie_up(p: Player, r: Flew)
    requires
        p.plane is Some,
        p.plane->0.fuel > 0,
    ensures
        p.after_flight(true, r).plane is Some,
        p.after_flight(true, r).plane->0.fuel == p.plane->0.fuel,
{
}

/// An unattended miner is sent to the nearest deposit that has any ore left, and
/// to none only when there is no ore anywhere.
pub proof fn lemma_the_nearest_ore_is_gone_for(ore: Seq<OreDeposit>, distances: Seq<Real>)
    requires
        distances.len() == ore.len(),
    ensures
        match least_of(deposit_keys(ore, distances)) {
            Some(i) => {
                &&& 0 <= i < ore.len()
                &&& ore[i].amount > 0
                &&& forall|k: int|
                    0 <= k < ore.len() && (#[trigger] ore[k]).amount > 0 ==> distances[i]
                        <= distances[k]
            },
            None => forall|k: int| 0 <= k < ore.len() ==> (#[trigger] ore[k]).amount <= 0,
        },
{
    let keys = deposit_keys(ore, distances);
    lemma_least(keys);
    assert forall|k: int| 0 <= k < ore.len() && (#[trigger] ore[k]).amount > 0 implies keys[k]
        == Some(distances[k]) by {}
    assert forall|k: int| 0 <= k < ore.len() && (#[trigger] ore[k]).amount <= 0 implies keys[k]
        is None by {}
}

/// A tick of driving moves what can move to where it drove, costs nobody hull,
/// cargo or ore, and leaves everything but the two ground vehicles alone.
pub proof fn lemma_driving_only_moves(before: &Game, after: &Game, ground: Seq<Ground>, i: int)
    requires
        drive_outcome(before, after, ground),
        0 <= i < before.players@.len(),
        before.players@[i] is Some,
    ensures
        after.players@.len() == before.players@.len(),
        after.players@[i] is Some,
        ({
            let (p, q) = (before.players@[i]->0, after.players@[i]->0);
            &&& q == Player { tank: q.tank, miner: q.miner, ..p }
            &&& q.tank is Some <==> p.tank is Some
            &&& q.miner is Some <==> p.miner is Some
            &&& p.tank is Some ==> {
                let (v, w, d) = (p.tank->0, q.tank->0, ground[i].tank);
                &&& !v.disabled ==> w.mv == d.mv
                &&& v.disabled ==> w.mv.pos == v.mv.pos && w.mv.speed == 0
                &&& w.turret_yaw == d.turret_yaw
                &&& w.hull == v.hull && w.cargo == v.cargo && w.disabled == v.disabled
                &&& w.shield == v.shield || w.shield == d.shield
            }
            &&& p.miner is Some ==> {
                let (v, w, d) = (p.miner->0, q.miner->0, ground[i].miner);
                &&& !v.disabled ==> w.mv == d.mv
                &&& v.disabled ==> w.mv.pos == v.mv.pos && w.mv.speed == 0
                &&& w.turret_yaw == v.turret_yaw
                &&& w.hull == v.hull && w.cargo == v.cargo && w.disabled == v.disabled
                &&& w.shield == v.shield || w.shield == d.shield
            }
        }),
{
}

/// A shield comes back only after a lull, and then to what the tick brought it
/// to; fire that keeps coming keeps it down.
pub proof fn lemma_a_shield_waits_for_a_lull(v: Vehicle, slot: VehicleSlot, r: Drove)
    ensures
        r.since_damage < SHIELD_REGEN_DELAY ==> v.after_drive(slot, r).shield == v.shield,
        r.since_damage >= SHIELD_REGEN_DELAY && !v.disabled ==> v.after_drive(slot, r).shield
            == r.shield,
        v.after_drive(slot, r).since_damage == r.since_damage,
        v.after_drive(slot, r).gun_cooldown == r.gun_cooldown,
        v.after_drive(slot, r).missile_cooldown == r.missile_cooldown,
        v.after_drive(slot, r).cargo == v.cargo,
        v.after_drive(slot, r).hull == v.hull,
{
}

/// Every crash told of is one that happened: a working vehicle, met by a hill
/// harder than it may be.
pub proof fn lemma_a_crash_was_a_crash(
    rules: &Rules,
    players: Seq<Option<Player>>,
    ground: Seq<Ground>,
    c: Crash,
)
    requires
        ground.len() == players.len(),
        all_crashes(rules, players, ground, ground.len()).contains(c),
    ensures
        exists|i: int|
            #![trigger players[i]]
            0 <= i < players.len() && players[i] is Some && players[i]->0.id == c.player
                && players[i]->0.vehicle_spec(c.slot) is Some
                && !players[i]->0.vehicle_spec(c.slot)->0.disabled && c.impact
                > rules.impact_threshold && c.slot != VehicleSlot::Plane,
{
    let f = |i: int|
        match players[i] {
            Some(p) => crash_of(rules, p.id, VehicleSlot::Tank, p.tank, ground[i].tank)
                + crash_of(rules, p.id, VehicleSlot::Miner, p.miner, ground[i].miner),
            None => Seq::empty(),
        };
    lemma_gathered_from(ground.len(), f, c);
    let i = choose|i: int| 0 <= i < ground.len() && (#[trigger] f(i)).contains(c);
    assert(players[i] is Some);
    let own = f(i);
    let k = choose|k: int| 0 <= k < own.len() && own[k] == c;
}

/// A working vehicle that met a hill too hard is told of.
pub proof fn lemma_a_crash_is_told(
    rules: &Rules,
    players: Seq<Option<Player>>,
    ground: Seq<Ground>,
    i: int,
)
    requires
        ground.len() == players.len(),
        0 <= i < players.len(),
        players[i] is Some,
    ensures
        ({
            let p = players[i]->0;
            let told = all_crashes(rules, players, ground, ground.len());
            let (t, m) = (ground[i].tank, ground[i].miner);
            &&& p.tank is Some && !p.tank->0.disabled && t.terrain_impact > rules.impact_threshold
                ==> told.contains(
                Crash {
                    player: p.id,
                    slot: VehicleSlot::Tank,
                    impact: t.terrain_impact,
                    bearing: t.mv.yaw,
                },
            )
            &&& p.miner is Some && !p.miner->0.disabled && m.terrain_impact > rules.impact_threshold
                ==> told.contains(
                Crash {
                    player: p.id,
                    slot: VehicleSlot::Miner,
                    impact: m.terrain_impact,
                    bearing: m.mv.yaw,
                },
            )
        }),
{
    let f = |i: int|
        match players[i] {
            Some(p) => crash_of(rules, p.id, VehicleSlot::Tank, p.tank, ground[i].tank)
                + crash_of(rules, p.id, VehicleSlot::Miner, p.miner, ground[i].miner),
            None => Seq::empty(),
        };
    let p = players[i]->0;
    let (t, m) = (ground[i].tank, ground[i].miner);
    let tank = Crash {
        player: p.id,
        slot: VehicleSlot::Tank,
        impact: t.terrain_impact,
        bearing: t.mv.yaw,
    };
    let miner = Crash {
        player: p.id,
        slot: VehicleSlot::Miner,
        impact: m.terrain_impact,
        bearing: m.mv.yaw,
    };
    if p.tank is Some && !p.tank->0.disabled && t.terrain_impact > rules.impact_threshold {
        assert(f(i)[0] == tank);
        lemma_gathered_holds(ground.len(), f, i, tank);
    }
    if p.miner is Some && !p.miner->0.disabled && m.terrain_impact > rules.impact_threshold {
        assert(f(i).last() == miner);
        lemma_gathered_holds(ground.len(), f, i, miner);
    }
}

/// Flying burns a sortie's own fuel and moves its own aircraft; one that is dry
/// is over, and the wait for the next starts then. Nobody else's anything is
/// touched.
pub proof fn lemma_flying_only_flies(before: &Game, after: &Game, flown: Seq<Flew>, i: int)
    requires
        fly_outcome(before, after, flown),
        0 <= i < before.players@.len(),
        before.players@[i] is Some,
    ensures
        after.players@.len() == before.players@.len(),
        after.players@[i] is Some,
        ({
            let (p, q, r) = (before.players@[i]->0, after.players@[i]->0, flown[i]);
            &&& q == Player { plane: q.plane, sortie_cooldown: q.sortie_cooldown, ..p }
            &&& p.plane is None ==> q.plane is None && q.sortie_cooldown == r.sortie_cooldown
            &&& p.plane is Some && !before.cheats && r.fuel <= 0 ==> q.plane is None
                && q.sortie_cooldown == SORTIE_COOLDOWN
            &&& p.plane is Some && !before.cheats && r.fuel > 0 ==> q.plane is Some
                && q.plane->0.fuel == r.fuel && q.plane->0.mv == r.mv && q.plane->0.hull
                == p.plane->0.hull && q.plane->0.shield == p.plane->0.shield
                && q.plane->0.gun_cooldown == r.gun_cooldown && q.plane->0.missile_cooldown
                == r.missile_cooldown && q.sortie_cooldown == r.sortie_cooldown
            &&& p.plane is Some && before.cheats && p.plane->0.fuel > 0 ==> q.plane is Some
                && q.plane->0.fuel == p.plane->0.fuel && q.plane->0.mv == r.mv
        }),
{
}

/// A vehicle has one driver: nobody where there is none or only a wreck of one,
/// the player where they have hold of it, and otherwise the autopilot of a miner
/// and nobody's hand on anything else.
pub proof fn lemma_who_drives(p: Player, slot: VehicleSlot)
    ensures
        ({
            let d = p.driver_spec(slot);
            let gone = p.vehicle_spec(slot) is None || p.vehicle_spec(slot)->0.disabled;
            let held = p.effective_input_spec().controlling == slot;
            &&& d is Nobody <==> gone
            &&& d is Player <==> !gone && held
            &&& d is Autopilot <==> !gone && !held && slot == VehicleSlot::Miner
            &&& d is Coasting <==> !gone && !held && slot != VehicleSlot::Miner
            &&& d is Player ==> d->throttle == p.effective_input_spec().throttle && d->steer
                == p.effective_input_spec().steer
        }),
{
}

/// A miner that gets anywhere is never taken for stuck, one that has been going
/// nowhere for long enough starts to back out, and one that is backing out goes
/// on until that is over.
pub proof fn lemma_a_stuck_miner_backs_out(p: Player, rules: &Rules, asked: Asked)
    ensures
        ({
            let q = p.after_autopilot(rules, asked);
            let moving = asked.throttle == 0 || asked.pace >= rules.stall_speed;
            &&& q == Player { stuck_for: q.stuck_for, unstick_for: q.unstick_for, ..p }
            &&& moving ==> q.stuck_for == 0
            &&& p.unstick_for > 0 ==> q.unstick_for == asked.unstick_for
            &&& p.unstick_for <= 0 ==> (q.unstick_for != p.unstick_for ==> q.unstick_for == ONE)
            &&& p.unstick_for <= 0 && (moving || asked.stuck_for <= ONE) ==> q.unstick_for
                == p.unstick_for
            &&& p.unstick_for <= 0 && !moving && asked.stuck_for > ONE ==> q.unstick_for == ONE
                && q.stuck_for == 0
            &&& !moving && asked.stuck_for <= ONE ==> q.stuck_for == asked.stuck_for
        }),
{
}

/// A miner on its own that is full goes home, and one with room goes to ore that
/// is there, no further than any other that is.
pub proof fn lemma_where_a_miner_heads(g: &Game, player: u8, capacity: Real, distances: Seq<Real>)
    requires
        distances.len() == g.ore@.len(),
        g.player_spec(player) is Some,
        g.player_spec(player)->0.miner is Some,
        g.player_spec(player)->0.miner_mode == MinerMode::Auto,
    ensures
        ({
            let to = g.course(player, capacity, distances);
            let cargo = g.player_spec(player)->0.miner->0.cargo;
            &&& cargo >= capacity ==> to == Some(
                (g.rules.corners@[player as int].base, g.rules.home_arrival),
            )
            &&& cargo < capacity && to is None ==> forall|k: int|
                0 <= k < g.ore@.len() ==> (#[trigger] g.ore@[k]).amount <= 0
            &&& cargo < capacity && to is Some ==> exists|i: int|
                #![trigger g.ore@[i]]
                0 <= i < g.ore@.len() && g.ore@[i].amount > 0 && to == Some(
                    (g.ore@[i].pos, g.rules.deposit_arrival),
                ) && forall|k: int|
                    0 <= k < g.ore@.len() && (#[trigger] g.ore@[k]).amount > 0 ==> distances[i]
                        <= distances[k]
        }),
{
    lemma_the_nearest_ore_is_gone_for(g.ore@, distances);
}

} // verus!
