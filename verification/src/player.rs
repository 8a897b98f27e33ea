//! A player, and what they have on the field.

use vstd::prelude::*;

use crate::measure::{MoveState, Real, Vec2};
use crate::protocol::{
    Fleet, InputFrame, MinerMode, PlaneSnapshot, PlayerSnapshot, SentinelSnapshot, VehicleKind,
    VehicleSlot, VehicleSnapshot, MAX_PLAYERS,
};
use crate::rules::{Capacity, Rules, INPUT_TIMEOUT, PLANE_FUEL, SHIELD_REGEN_DELAY};

verus! {

/// One of a player's vehicles.
#[derive(Clone, Copy, Debug, PartialEq, Eq, Structural)]
pub struct Vehicle {
    pub mv: MoveState,
    pub turret_yaw: Real,
    pub shield: Real,
    pub hull: Real,
    pub cargo: Real,
    /// A miner at zero hull. It cannot move or mine, and an enemy tank can take
    /// it.
    pub disabled: bool,
    /// Capture progress while disabled, from zero to one.
    pub capture_progress: Real,
    /// Seconds since last taking damage, gating shield regeneration.
    pub since_damage: Real,
    pub gun_cooldown: Real,
    pub missile_cooldown: Real,
    /// Seconds of flying left. Only the bomber burns it.
    pub fuel: Real,
}

impl Vehicle {
    /// A vehicle as it takes the field: whole, at rest, and facing `yaw`.
    pub open spec fn spawned(kind: VehicleKind, pos: Vec2, yaw: Real, holds: Capacity) -> Vehicle {
        Vehicle {
            mv: MoveState { pos, yaw, speed: 0, roll: 0, alt: 0 },
            turret_yaw: yaw,
            shield: holds.shield,
            hull: holds.hull,
            cargo: 0,
            disabled: false,
            capture_progress: 0,
            since_damage: SHIELD_REGEN_DELAY,
            gun_cooldown: 0,
            missile_cooldown: 0,
            fuel: if kind.flies_spec() { PLANE_FUEL } else { 0 },
        }
    }

    /// Puts a new vehicle on the field. `holds` is what its kind holds with the
    /// upgrades its owner has.
    pub fn spawn(kind: VehicleKind, pos: Vec2, yaw: Real, holds: Capacity) -> (r: Self)
        ensures
            r.mv.pos == pos,
            r.mv.yaw == yaw && r.turret_yaw == yaw,
            r.mv.speed == 0 && r.mv.roll == 0 && r.mv.alt == 0,
            r.shield == holds.shield,
            r.hull == holds.hull,
            r.cargo == 0,
            !r.disabled && r.capture_progress == 0,
            r.since_damage == SHIELD_REGEN_DELAY,
            r.gun_cooldown == 0 && r.missile_cooldown == 0,
            kind == VehicleKind::Plane ==> r.fuel == PLANE_FUEL,
            kind != VehicleKind::Plane ==> r.fuel == 0,
            r == Vehicle::spawned(kind, pos, yaw, holds),
    {
        Vehicle {
            mv: MoveState { pos, yaw, speed: 0, roll: 0, alt: 0 },
            turret_yaw: yaw,
            shield: holds.shield,
            hull: holds.hull,
            cargo: 0,
            disabled: false,
            capture_progress: 0,
            since_damage: SHIELD_REGEN_DELAY,
            gun_cooldown: 0,
            missile_cooldown: 0,
            fuel: if kind.flies() { PLANE_FUEL } else { 0 },
        }
    }

    pub open spec fn snapshot_spec(self) -> VehicleSnapshot {
        VehicleSnapshot {
            pos: self.mv.pos,
            yaw: self.mv.yaw,
            turret_yaw: self.turret_yaw,
            speed: self.mv.speed,
            shield: self.shield,
            hull: self.hull,
            cargo: self.cargo,
            disabled: self.disabled,
            capture_progress: self.capture_progress,
        }
    }

    /// What a client is shown of it.
    pub fn to_snapshot(&self) -> (r: VehicleSnapshot)
        ensures
            r.pos == self.mv.pos,
            r.yaw == self.mv.yaw,
            r.turret_yaw == self.turret_yaw,
            r.speed == self.mv.speed,
            r.shield == self.shield,
            r.hull == self.hull,
            r.cargo == self.cargo,
            r.disabled == self.disabled,
            r.capture_progress == self.capture_progress,
            r == self.snapshot_spec(),
    {
        VehicleSnapshot {
            pos: self.mv.pos,
            yaw: self.mv.yaw,
            turret_yaw: self.turret_yaw,
            speed: self.mv.speed,
            shield: self.shield,
            hull: self.hull,
            cargo: self.cargo,
            disabled: self.disabled,
            capture_progress: self.capture_progress,
        }
    }

    /// No more protection than it holds.
    pub open spec fn capped(self, holds: Capacity) -> Vehicle {
        Vehicle {
            shield: if holds.shield < self.shield { holds.shield } else { self.shield },
            hull: if holds.hull < self.hull { holds.hull } else { self.hull },
            ..self
        }
    }

    /// Brings what it carries down to what it holds.
    pub(crate) fn cap(&mut self, holds: Capacity)
        ensures
            final(self).shield <= holds.shield && final(self).shield <= old(self).shield,
            final(self).shield == holds.shield || final(self).shield == old(self).shield,
            final(self).hull <= holds.hull && final(self).hull <= old(self).hull,
            final(self).hull == holds.hull || final(self).hull == old(self).hull,
            *final(self) == (Vehicle {
                shield: final(self).shield,
                hull: final(self).hull,
                ..*old(self)
            }),
            *final(self) == old(self).capped(holds),
    {
        if holds.shield < self.shield {
            self.shield = holds.shield;
        }
        if holds.hull < self.hull {
            self.hull = holds.hull;
        }
    }
}

/// The gun emplacement in a player's home corner.
///
/// Not a vehicle: it never moves, has no shield, and is not something the player
/// drives. It exists to make walking into somebody's base cost something even
/// when they are away fighting.
#[derive(Clone, Copy, Debug, PartialEq, Eq, Structural)]
pub struct Sentinel {
    pub hull: Real,
    pub turret_yaw: Real,
    pub gun_cooldown: Real,
    /// Seconds of rubble left. Zero means it is standing.
    pub rebuild_timer: Real,
    /// Which of the enemies in range is being engaged. Advanced only after a
    /// shot actually leaves, so it commits to one target long enough to finish
    /// slewing onto it instead of thrashing between two.
    pub cursor: usize,
}

impl Sentinel {
    pub open spec fn built(rules: &Rules, player: u8) -> Sentinel {
        Sentinel {
            hull: rules.sentinel_hull,
            turret_yaw: rules.corners@[player as int].post_inward,
            gun_cooldown: 0,
            rebuild_timer: 0,
            cursor: 0,
        }
    }

    /// An emplacement at full hull, facing the middle of the field: pointed
    /// where trouble comes from rather than at its own corner.
    pub fn new(rules: &Rules, player: u8) -> (r: Self)
        requires
            rules.wf(),
            player < MAX_PLAYERS,
        ensures
            r.hull == rules.sentinel_hull,
            r.turret_yaw == rules.corners@[player as int].post_inward,
            r.gun_cooldown == 0 && r.rebuild_timer == 0 && r.cursor == 0,
            r == Sentinel::built(rules, player),
    {
        Sentinel {
            hull: rules.sentinel_hull,
            turret_yaw: rules.corners[player as usize].post_inward,
            gun_cooldown: 0,
            rebuild_timer: 0,
            cursor: 0,
        }
    }

    pub open spec fn is_standing(self) -> bool {
        self.rebuild_timer <= 0
    }

    /// Whether there is a gun there rather than a heap.
    pub fn standing(&self) -> (r: bool)
        ensures
            r <==> self.rebuild_timer <= 0,
            r == self.is_standing(),
    {
        self.rebuild_timer <= 0
    }
}

/// Three numbers a snapshot shows that are worked out rather than stored.
#[derive(Clone, Copy, Debug, PartialEq, Eq, Structural)]
pub struct Dials {
    /// The fuel of the sortie in the air, as a fraction of a full tank.
    pub fuel: Real,
    /// Whole seconds, rounded up, until a sortie can be called.
    pub plane_ready_in: u8,
    /// Whole seconds, rounded up, until the player is back on the field.
    pub respawn_in: u8,
}

#[derive(Clone, Debug)]
pub struct Player {
    pub id: u8,
    pub name: String,
    /// Stable identity across reconnects.
    pub token: u64,
    pub connected: bool,
    /// Off the field for now. How long that lasts is `down_for`.
    pub eliminated: bool,
    pub credits: u32,
    pub ore_mined: u32,
    pub powerups: u16,
    pub missiles: u8,
    pub captures: u8,
    pub tank: Option<Vehicle>,
    pub miner: Option<Vehicle>,
    /// A sortie in the air. A `Vehicle` like the other two so that everything
    /// which takes a slot works on it without a second shape to special-case.
    pub plane: Option<Vehicle>,
    /// Seconds until another sortie can be called. Counts from the last one
    /// ending, so a short run does not buy a quick second one.
    pub sortie_cooldown: Real,
    pub sentinel: Sentinel,
    /// What the miner does when the player is driving something else.
    pub miner_mode: MinerMode,
    /// Seconds the autopilot has spent asking for throttle and going nowhere.
    pub stuck_for: Real,
    /// Seconds left of backing out of being wedged.
    pub unstick_for: Real,
    /// Counts down while the tank is destroyed.
    pub respawn_timer: Real,
    /// Counts down while the player is off the field entirely, having had their
    /// miner taken. Zero means they are in the match.
    pub down_for: Real,
    pub input: InputFrame,
    /// Seconds since a fresh input frame arrived.
    pub input_age: Real,
    /// Highest input tick accepted, echoed back so the client can reconcile.
    pub acked_input: u32,
}

impl Player {
    /// A player as they start a match.
    pub open spec fn fresh(rules: &Rules, id: u8, token: u64, name: String) -> Player {
        let corner = rules.corners@[id as int];
        Player {
            id,
            name,
            token,
            connected: true,
            eliminated: false,
            credits: rules.starting_credits,
            ore_mined: 0,
            powerups: rules.starting_powerups,
            missiles: rules.starting_missiles,
            captures: 0,
            tank: Some(
                Vehicle::spawned(
                    VehicleKind::Tank,
                    corner.tank_start,
                    corner.inward,
                    rules.starting_tank,
                ),
            ),
            miner: Some(
                Vehicle::spawned(
                    VehicleKind::Miner,
                    corner.miner_start,
                    corner.inward,
                    rules.starting_miner,
                ),
            ),
            plane: None,
            sortie_cooldown: 0,
            sentinel: Sentinel::built(rules, id),
            miner_mode: MinerMode::Auto,
            stuck_for: 0,
            unstick_for: 0,
            respawn_timer: 0,
            down_for: 0,
            input: InputFrame::neutral(),
            input_age: 0,
            acked_input: 0,
        }
    }

    /// Starts a player off in corner `id`.
    pub fn new(rules: &Rules, id: u8, token: u64, name: String) -> (r: Self)
        requires
            rules.wf(),
            id < MAX_PLAYERS,
        ensures
            r.id == id && r.name == name && r.token == token,
            r.connected && !r.eliminated,
            r.credits == rules.starting_credits,
            r.ore_mined == 0 && r.captures == 0,
            r.powerups == rules.starting_powerups,
            r.missiles == rules.starting_missiles,
            r.tank is Some && r.miner is Some && r.plane is None,
            r.tank->0.mv.pos == rules.corners@[id as int].tank_start,
            r.miner->0.mv.pos == rules.corners@[id as int].miner_start,
            r.tank->0.mv.yaw == rules.corners@[id as int].inward,
            r.miner->0.mv.yaw == rules.corners@[id as int].inward,
            r.tank->0.shield == rules.starting_tank.shield && r.tank->0.hull == rules.starting_tank.hull,
            r.miner->0.shield == rules.starting_miner.shield && r.miner->0.hull
                == rules.starting_miner.hull,
            r.tank->0.cargo == 0 && r.miner->0.cargo == 0,
            !r.tank->0.disabled && !r.miner->0.disabled,
            r.sentinel.hull == rules.sentinel_hull && r.sentinel.rebuild_timer == 0,
            r.miner_mode == MinerMode::Auto,
            r.sortie_cooldown == 0 && r.respawn_timer == 0 && r.down_for == 0,
            r.stuck_for == 0 && r.unstick_for == 0,
            r.input_age == 0 && r.acked_input == 0,
            r.input.throttle == 0 && r.input.steer == 0 && r.input.climb == 0,
            !r.input.fire_primary && !r.input.fire_secondary,
            r.input.controlling == VehicleSlot::Tank,
            r == Player::fresh(rules, id, token, name),
    {
        let corner = rules.corners[id as usize];
        Player {
            id,
            name,
            token,
            connected: true,
            eliminated: false,
            credits: rules.starting_credits,
            ore_mined: 0,
            powerups: rules.starting_powerups,
            missiles: rules.starting_missiles,
            captures: 0,
            tank: Some(
                Vehicle::spawn(
                    VehicleKind::Tank,
                    corner.tank_start,
                    corner.inward,
                    rules.starting_tank,
                ),
            ),
            miner: Some(
                Vehicle::spawn(
                    VehicleKind::Miner,
                    corner.miner_start,
                    corner.inward,
                    rules.starting_miner,
                ),
            ),
            plane: None,
            sortie_cooldown: 0,
            sentinel: Sentinel::new(rules, id),
            miner_mode: MinerMode::default(),
            stuck_for: 0,
            unstick_for: 0,
            respawn_timer: 0,
            down_for: 0,
            input: InputFrame::default(),
            input_age: 0,
            acked_input: 0,
        }
    }

    pub open spec fn fleet_spec(&self) -> Fleet {
        Fleet {
            tank: self.tank is Some,
            miner: self.miner is Some,
            plane: self.plane is Some,
        }
    }

    /// Which vehicles the player has.
    pub fn fleet(&self) -> (r: Fleet)
        ensures
            r.tank <==> self.tank is Some,
            r.miner <==> self.miner is Some,
            r.plane <==> self.plane is Some,
            r == self.fleet_spec(),
    {
        Fleet {
            tank: self.tank.is_some(),
            miner: self.miner.is_some(),
            plane: self.plane.is_some(),
        }
    }

    /// The input frame once its age is taken into account. Stale controls go
    /// neutral; the aim stays.
    pub open spec fn aged_input(&self) -> InputFrame {
        if self.input_age > INPUT_TIMEOUT {
            InputFrame {
                tick: self.input.tick,
                controlling: self.input.controlling,
                aim: self.input.aim,
                ..InputFrame::neutral()
            }
        } else {
            self.input
        }
    }

    /// The input to simulate with: never older than the timeout, and never
    /// aimed at a vehicle that is not there while there is one that is.
    pub open spec fn effective_input_spec(&self) -> InputFrame {
        let frame = self.aged_input();
        InputFrame { controlling: frame.controlling.or_next_spec(self.fleet_spec()), ..frame }
    }

    /// The input to actually simulate with.
    ///
    /// Once frames stop arriving the controls go neutral, so the vehicle coasts
    /// to a stop and stops shooting. Driving a vehicle that is not there is
    /// driving nothing, so the controls fall through to the next one there is;
    /// a slot can stop existing mid-flight, so this is checked every tick
    /// rather than announced.
    pub fn effective_input(&self) -> (r: InputFrame)
        ensures
            r.tick == self.input.tick && r.aim == self.input.aim,
            self.input_age <= INPUT_TIMEOUT ==> {
                &&& r.throttle == self.input.throttle
                &&& r.steer == self.input.steer
                &&& r.climb == self.input.climb
                &&& r.fire_primary == self.input.fire_primary
                &&& r.fire_secondary == self.input.fire_secondary
            },
            self.input_age > INPUT_TIMEOUT ==> {
                &&& r.throttle == 0 && r.steer == 0 && r.climb == 0
                &&& !r.fire_primary && !r.fire_secondary
            },
            match self.input.controlling {
                VehicleSlot::Tank => self.tank is Some,
                VehicleSlot::Miner => self.miner is Some,
                VehicleSlot::Plane => self.plane is Some,
            } ==> r.controlling == self.input.controlling,
            self.tank is Some || self.miner is Some || self.plane is Some ==> match r.controlling {
                VehicleSlot::Tank => self.tank is Some,
                VehicleSlot::Miner => self.miner is Some,
                VehicleSlot::Plane => self.plane is Some,
            },
            r == self.effective_input_spec(),
    {
        let mut frame: InputFrame = if self.input_age > INPUT_TIMEOUT {
            InputFrame {
                tick: self.input.tick,
                controlling: self.input.controlling,
                throttle: 0,
                steer: 0,
                climb: 0,
                aim: self.input.aim,
                fire_primary: false,
                fire_secondary: false,
            }
        } else {
            self.input
        };
        let slot = frame.controlling.or_next(self.fleet());
        frame.controlling = slot;
        frame
    }

    pub open spec fn vehicle_spec(&self, slot: VehicleSlot) -> Option<Vehicle> {
        match slot {
            VehicleSlot::Tank => self.tank,
            VehicleSlot::Miner => self.miner,
            VehicleSlot::Plane => self.plane,
        }
    }

    /// The vehicle in a slot.
    pub fn vehicle(&self, slot: VehicleSlot) -> (r: Option<&Vehicle>)
        ensures
            slot == VehicleSlot::Tank ==> (r is Some <==> self.tank is Some) && (r is Some ==> Some(
                *r->0,
            ) == self.tank),
            slot == VehicleSlot::Miner ==> (r is Some <==> self.miner is Some) && (r is Some ==> Some(
                *r->0,
            ) == self.miner),
            slot == VehicleSlot::Plane ==> (r is Some <==> self.plane is Some) && (r is Some ==> Some(
                *r->0,
            ) == self.plane),
            match r {
                Some(v) => self.vehicle_spec(slot) == Some(*v),
                None => self.vehicle_spec(slot) is None,
            },
    {
        match slot {
            VehicleSlot::Tank => self.tank.as_ref(),
            VehicleSlot::Miner => self.miner.as_ref(),
            VehicleSlot::Plane => self.plane.as_ref(),
        }
    }

    /// The player with another vehicle in a slot.
    pub open spec fn with_vehicle(self, slot: VehicleSlot, v: Option<Vehicle>) -> Player {
        match slot {
            VehicleSlot::Tank => Player { tank: v, ..self },
            VehicleSlot::Miner => Player { miner: v, ..self },
            VehicleSlot::Plane => Player { plane: v, ..self },
        }
    }

    /// The vehicle in a slot, to be changed in place.
    pub fn vehicle_mut(&mut self, slot: VehicleSlot) -> (r: Option<&mut Vehicle>)
        ensures
            slot != VehicleSlot::Tank ==> final(self).tank == old(self).tank,
            slot != VehicleSlot::Miner ==> final(self).miner == old(self).miner,
            slot != VehicleSlot::Plane ==> final(self).plane == old(self).plane,
            match r {
                Some(v) => {
                    &&& old(self).vehicle_spec(slot) == Some(*v)
                    &&& *final(self) == old(self).with_vehicle(slot, Some(*final(v)))
                },
                None => {
                    &&& old(self).vehicle_spec(slot) is None
                    &&& *final(self) == *old(self)
                },
            },
    {
        match slot {
            VehicleSlot::Tank => self.tank.as_mut(),
            VehicleSlot::Miner => self.miner.as_mut(),
            VehicleSlot::Plane => self.plane.as_mut(),
        }
    }

    pub open spec fn snapshot_spec(&self, dials: Dials) -> PlayerSnapshot {
        PlayerSnapshot {
            id: self.id,
            connected: self.connected,
            eliminated: self.eliminated,
            credits: self.credits,
            ore_mined: self.ore_mined,
            powerups: self.powerups,
            missiles: self.missiles,
            captures: self.captures,
            miner_mode: self.miner_mode,
            plane: match self.plane {
                Some(v) => Some(
                    PlaneSnapshot {
                        pos: v.mv.pos,
                        yaw: v.mv.yaw,
                        roll: v.mv.roll,
                        speed: v.mv.speed,
                        fuel: dials.fuel,
                        alt: v.mv.alt,
                        shield: v.shield,
                        hull: v.hull,
                    },
                ),
                None => None,
            },
            plane_ready_in: dials.plane_ready_in,
            respawn_in: dials.respawn_in,
            tank: match self.tank {
                Some(v) => Some(v.snapshot_spec()),
                None => None,
            },
            miner: match self.miner {
                Some(v) => Some(v.snapshot_spec()),
                None => None,
            },
            sentinel: if self.sentinel.is_standing() {
                Some(
                    SentinelSnapshot {
                        hull: self.sentinel.hull,
                        turret_yaw: self.sentinel.turret_yaw,
                    },
                )
            } else {
                None
            },
        }
    }

    /// What every client is shown of the player. An emplacement is absent while
    /// it is rubble, which is how a client knows to draw the wreck.
    pub fn to_snapshot(&self, dials: Dials) -> (r: PlayerSnapshot)
        ensures
            r.id == self.id,
            r.connected == self.connected,
            r.eliminated == self.eliminated,
            r.credits == self.credits,
            r.ore_mined == self.ore_mined,
            r.powerups == self.powerups,
            r.missiles == self.missiles,
            r.captures == self.captures,
            r.miner_mode == self.miner_mode,
            r.plane_ready_in == dials.plane_ready_in,
            r.respawn_in == dials.respawn_in,
            r.plane is Some <==> self.plane is Some,
            self.plane is Some ==> {
                let (v, s) = (self.plane->0, r.plane->0);
                &&& s.pos == v.mv.pos && s.yaw == v.mv.yaw && s.roll == v.mv.roll
                &&& s.speed == v.mv.speed && s.alt == v.mv.alt
                &&& s.fuel == dials.fuel
                &&& s.shield == v.shield && s.hull == v.hull
            },
            r.tank is Some <==> self.tank is Some,
            self.tank is Some ==> shows(r.tank->0, self.tank->0),
            r.miner is Some <==> self.miner is Some,
            self.miner is Some ==> shows(r.miner->0, self.miner->0),
            r.sentinel is Some <==> self.sentinel.rebuild_timer <= 0,
            r.sentinel is Some ==> r.sentinel->0.hull == self.sentinel.hull && r.sentinel->0.turret_yaw
                == self.sentinel.turret_yaw,
            r == self.snapshot_spec(dials),
    {
        PlayerSnapshot {
            id: self.id,
            connected: self.connected,
            eliminated: self.eliminated,
            credits: self.credits,
            ore_mined: self.ore_mined,
            powerups: self.powerups,
            missiles: self.missiles,
            captures: self.captures,
            miner_mode: self.miner_mode,
            plane: match &self.plane {
                Some(v) => Some(
                    PlaneSnapshot {
                        pos: v.mv.pos,
                        yaw: v.mv.yaw,
                        roll: v.mv.roll,
                        speed: v.mv.speed,
                        fuel: dials.fuel,
                        alt: v.mv.alt,
                        shield: v.shield,
                        hull: v.hull,
                    },
                ),
                None => None,
            },
            plane_ready_in: dials.plane_ready_in,
            respawn_in: dials.respawn_in,
            tank: match &self.tank {
                Some(v) => Some(v.to_snapshot()),
                None => None,
            },
            miner: match &self.miner {
                Some(v) => Some(v.to_snapshot()),
                None => None,
            },
            sentinel: if self.sentinel.standing() {
                Some(
                    SentinelSnapshot {
                        hull: self.sentinel.hull,
                        turret_yaw: self.sentinel.turret_yaw,
                    },
                )
            } else {
                None
            },
        }
    }
}

/// A player with anything to drive is never left driving nothing.
pub proof fn lemma_controls_reach_a_vehicle(p: Player)
    requires
        p.fleet_spec().any(),
    ensures
        p.vehicle_spec(p.effective_input_spec().controlling) is Some,
{
}

/// Once frames stop arriving nothing moves and nothing fires, and the aim stays
/// where it was.
pub proof fn lemma_silence_is_hands_off(p: Player)
    requires
        p.input_age > INPUT_TIMEOUT,
    ensures
        ({
            let f = p.effective_input_spec();
            &&& f.throttle == 0 && f.steer == 0 && f.climb == 0
            &&& !f.fire_primary && !f.fire_secondary
            &&& f.aim == p.input.aim
        }),
{
}

/// Whether what is shown is what there is, gauge by gauge.
pub open spec fn shows(s: VehicleSnapshot, v: Vehicle) -> bool {
    &&& s.pos == v.mv.pos
    &&& s.yaw == v.mv.yaw
    &&& s.speed == v.mv.speed
    &&& s.turret_yaw == v.turret_yaw
    &&& s.shield == v.shield
    &&& s.hull == v.hull
    &&& s.cargo == v.cargo
    &&& s.disabled == v.disabled
    &&& s.capture_progress == v.capture_progress
}

/// A client is shown every gauge of a vehicle as it reads: the shield as the
/// shield and the hull as the hull.
pub proof fn lemma_a_vehicle_is_shown_as_it_is(v: Vehicle)
    ensures
        v.snapshot_spec().pos == v.mv.pos,
        v.snapshot_spec().yaw == v.mv.yaw,
        v.snapshot_spec().speed == v.mv.speed,
        v.snapshot_spec().turret_yaw == v.turret_yaw,
        v.snapshot_spec().shield == v.shield,
        v.snapshot_spec().hull == v.hull,
        v.snapshot_spec().cargo == v.cargo,
        v.snapshot_spec().disabled == v.disabled,
        v.snapshot_spec().capture_progress == v.capture_progress,
{
}

/// Two vehicles that look the same to a client have the same gauges, so a client
/// is never shown one for the other.
pub proof fn lemma_gauges_are_not_confused(v: Vehicle, w: Vehicle)
    requires
        v.snapshot_spec() == w.snapshot_spec(),
    ensures
        v.mv.pos == w.mv.pos && v.mv.yaw == w.mv.yaw && v.mv.speed == w.mv.speed,
        v.shield == w.shield && v.hull == w.hull && v.cargo == w.cargo,
        v.disabled == w.disabled && v.capture_progress == w.capture_progress,
        v.turret_yaw == w.turret_yaw,
{
}

/// A player is shown with their own bank, stock and upgrades, and with exactly
/// the vehicles they have.
pub proof fn lemma_a_player_is_shown_as_they_are(p: Player, dials: Dials)
    ensures
        ({
            let s = p.snapshot_spec(dials);
            &&& s.id == p.id && s.connected == p.connected && s.eliminated == p.eliminated
            &&& s.credits == p.credits && s.ore_mined == p.ore_mined
            &&& s.powerups == p.powerups && s.missiles == p.missiles && s.captures == p.captures
            &&& s.miner_mode == p.miner_mode
            &&& s.plane_ready_in == dials.plane_ready_in && s.respawn_in == dials.respawn_in
            &&& s.tank is Some <==> p.tank is Some
            &&& p.tank is Some ==> shows(s.tank->0, p.tank->0)
            &&& s.miner is Some <==> p.miner is Some
            &&& p.miner is Some ==> shows(s.miner->0, p.miner->0)
            &&& s.plane is Some <==> p.plane is Some
            &&& p.plane is Some ==> s.plane->0.shield == p.plane->0.shield && s.plane->0.hull
                == p.plane->0.hull && s.plane->0.pos == p.plane->0.mv.pos && s.plane->0.alt
                == p.plane->0.mv.alt && s.plane->0.roll == p.plane->0.mv.roll && s.plane->0.yaw
                == p.plane->0.mv.yaw && s.plane->0.speed == p.plane->0.mv.speed
                && s.plane->0.fuel == dials.fuel
            &&& s.sentinel is Some <==> p.sentinel.rebuild_timer <= 0
            &&& s.sentinel is Some ==> s.sentinel->0.hull == p.sentinel.hull
                && s.sentinel->0.turret_yaw == p.sentinel.turret_yaw
        }),
{
}

/// Everybody starts even: whole, at rest, in their own corner, with what the
/// rules hand out and nothing more.
pub proof fn lemma_everybody_starts_even(rules: &Rules, id: u8, token: u64, name: String)
    ensures
        ({
            let p = Player::fresh(rules, id, token, name);
            let corner = rules.corners@[id as int];
            &&& p.id == id && p.token == token && p.name == name
            &&& p.connected && !p.eliminated
            &&& p.credits == rules.starting_credits && p.missiles == rules.starting_missiles
            &&& p.powerups == rules.starting_powerups
            &&& p.ore_mined == 0 && p.captures == 0
            &&& p.tank is Some && p.miner is Some && p.plane is None
            &&& p.tank->0.mv.pos == corner.tank_start && p.miner->0.mv.pos == corner.miner_start
            &&& p.tank->0.hull == rules.starting_tank.hull && p.tank->0.shield
                == rules.starting_tank.shield
            &&& p.miner->0.hull == rules.starting_miner.hull && p.miner->0.shield
                == rules.starting_miner.shield
            &&& p.tank->0.mv.speed == 0 && p.miner->0.mv.speed == 0
            &&& p.tank->0.mv.yaw == corner.inward && p.miner->0.mv.yaw == corner.inward
            &&& p.miner->0.cargo == 0 && !p.miner->0.disabled
            &&& p.sentinel.hull == rules.sentinel_hull && p.sentinel.is_standing()
            &&& p.respawn_timer == 0 && p.down_for == 0 && p.sortie_cooldown == 0
            &&& p.miner_mode == MinerMode::Auto
        }),
{
}

} // verus!
