//! The numbers a match is played by.
//!
//! Some are fixed by what the game is. The rest are tuning, and come with the
//! physics: they are handed over once, when a match is made.

use vstd::prelude::*;

use crate::measure::{Real, Vec2};
use crate::protocol::{BOMBER_PRICE, MAX_PLAYERS, PowerUp};

verus! {

/// How long a player's last input frame stays in effect: half a second.
///
/// Input arrives unreliably and a client that lags out simply stops sending.
/// Without an expiry a dropped player would drive on at full throttle, firing,
/// indefinitely.
pub const INPUT_TIMEOUT: Real = 0x3f00_0000;

/// How long a destroyed tank is gone: eight seconds.
pub const TANK_RESPAWN_DELAY: Real = 0x4100_0000;

/// How long losing a miner keeps a player off the field: a minute.
pub const CAPTURE_LOCKOUT: Real = 0x4270_0000;

/// How long after one sortie the next can be called: forty-five seconds.
pub const SORTIE_COOLDOWN: Real = 0x4234_0000;

/// What a sortie takes off with: sixty seconds of fuel.
pub const PLANE_FUEL: Real = 0x4270_0000;

/// How quiet it has to be before a shield comes back: four seconds.
pub const SHIELD_REGEN_DELAY: Real = 0x4080_0000;

/// How far off its target a gun that aims itself may be and still fire: 0.15
/// of a radian.
pub const AIM_TOLERANCE: Real = 0x3e19_999a;

/// How close a missile may be to something and still steer for it: a
/// thousandth of a unit.
pub const SEEK_MINIMUM: Real = 0x3a83_126f;

/// What one vehicle can hold of each kind of protection.
#[derive(Clone, Copy, Debug, PartialEq, Eq, Structural)]
pub struct Capacity {
    pub shield: Real,
    pub hull: Real,
}

/// One player's corner of the field, and how things stand in it at the start.
#[derive(Clone, Copy, Debug, PartialEq, Eq, Structural)]
pub struct Corner {
    /// The middle of the home pad.
    pub base: Vec2,
    /// From the pad toward the middle of the field.
    pub inward: Real,
    pub tank_start: Vec2,
    pub miner_start: Vec2,
    /// Where the gun emplacement stands.
    pub post: Vec2,
    /// From the emplacement toward the middle of the field.
    pub post_inward: Real,
}

/// What everything but the bomber costs.
#[derive(Clone, Copy, Debug, PartialEq, Eq, Structural)]
pub struct Prices {
    pub radar: u32,
    pub shield_booster: u32,
    pub turbo: u32,
    pub miner_armor: u32,
    pub auto_turret: u32,
    pub long_barrel: u32,
    pub missile_pack: u32,
}

impl Prices {
    pub open spec fn cost_spec(self, powerup: PowerUp) -> u32 {
        match powerup {
            PowerUp::Radar => self.radar,
            PowerUp::ShieldBooster => self.shield_booster,
            PowerUp::Turbo => self.turbo,
            PowerUp::MinerArmor => self.miner_armor,
            PowerUp::AutoTurret => self.auto_turret,
            PowerUp::LongBarrel => self.long_barrel,
            PowerUp::MissilePack => self.missile_pack,
            PowerUp::Bomber => BOMBER_PRICE,
        }
    }

    /// What an upgrade costs.
    pub fn cost(&self, powerup: PowerUp) -> (r: u32)
        ensures
            powerup == PowerUp::Radar ==> r == self.radar,
            powerup == PowerUp::ShieldBooster ==> r == self.shield_booster,
            powerup == PowerUp::Turbo ==> r == self.turbo,
            powerup == PowerUp::MinerArmor ==> r == self.miner_armor,
            powerup == PowerUp::AutoTurret ==> r == self.auto_turret,
            powerup == PowerUp::LongBarrel ==> r == self.long_barrel,
            powerup == PowerUp::MissilePack ==> r == self.missile_pack,
            powerup == PowerUp::Bomber ==> r == BOMBER_PRICE,
            r == self.cost_spec(powerup),
    {
        match powerup {
            PowerUp::Radar => self.radar,
            PowerUp::ShieldBooster => self.shield_booster,
            PowerUp::Turbo => self.turbo,
            PowerUp::MinerArmor => self.miner_armor,
            PowerUp::AutoTurret => self.auto_turret,
            PowerUp::LongBarrel => self.long_barrel,
            PowerUp::MissilePack => self.missile_pack,
            PowerUp::Bomber => BOMBER_PRICE,
        }
    }
}

/// A gun's timing, and the flight of what leaves it.
#[derive(Clone, Copy, Debug, PartialEq, Eq, Structural)]
pub struct Gun {
    pub cooldown: Real,
    pub speed: Real,
    pub life: Real,
}

/// The tuning of a match.
#[derive(Clone, Debug)]
pub struct Rules {
    pub starting_credits: u32,
    pub starting_missiles: u8,
    pub starting_powerups: u16,
    pub missiles_per_pack: u8,
    pub prices: Prices,
    /// What the opening vehicles hold, with the opening upgrades.
    pub starting_tank: Capacity,
    pub starting_miner: Capacity,
    /// One per player slot.
    pub corners: Vec<Corner>,
    /// What a player who gives no name is called, one per player slot.
    pub color_names: Vec<String>,
    /// How wide the field is.
    pub world_size: Real,
    /// How many ticks go by between two updates that tell of every deposit.
    pub ore_sync_interval: u32,
    /// The most projectiles and impacts a snapshot carries.
    pub projectile_budget: usize,
    pub hit_budget: usize,
    pub plane_cruise: Real,
    pub plane_altitude: Real,
    /// How wide the hulls are.
    pub tank_radius: Real,
    pub miner_radius: Real,
    pub plane_radius: Real,
    pub sentinel_radius: Real,
    /// How far along either axis the middle of a hull can be: the width of the
    /// field less the radius.
    pub tank_wall: Real,
    pub miner_wall: Real,
    /// How far apart in height two things in the air can be and still meet.
    pub same_height: Real,
    pub sentinel_hull: Real,
    pub sentinel_rebuild: Real,
    pub sentinel_range: Real,
    pub sentinel_gun: Gun,
    pub auto_turret_range: Real,
    pub auto_turret_gun: Gun,
    /// The tank's gun. How long its shell flies depends on the barrel, so the
    /// life given here is not the one used.
    pub tank_gun: Gun,
    pub missile: Gun,
    /// The speed a missile burns up to.
    pub missile_max_speed: Real,
    /// The cannon an aircraft fires along its own nose.
    pub cannon: Gun,
    pub bomb_cooldown: Real,
    pub bullet_damage: Real,
    pub missile_damage: Real,
    pub cannon_damage: Real,
    pub missile_seek_range: Real,
    pub missile_seek_cone: Real,
    pub bomb_blast_radius: Real,
    pub mining_radius: Real,
    pub mining_max_speed: Real,
    pub capture_radius: Real,
    /// The closing speed above which a meeting costs hull.
    pub impact_threshold: Real,
    /// How close to its own pad, and to a deposit, an autopilot counts as
    /// arrived.
    pub home_arrival: Real,
    pub deposit_arrival: Real,
    /// The speed below which an autopilot asking for throttle is getting
    /// nowhere.
    pub stall_speed: Real,
}

impl Rules {
    /// There is a corner and a name for every slot, the ore is synced at some
    /// interval, and the field is wide enough for a hull.
    pub open spec fn wf(&self) -> bool {
        &&& self.ore_sync_interval > 0
        &&& self.corners@.len() == MAX_PLAYERS
        &&& self.color_names@.len() == MAX_PLAYERS
        &&& self.tank_radius <= self.tank_wall
        &&& self.miner_radius <= self.miner_wall
    }
}

/// How long things take, against each other: input expires before a shield comes
/// back, a shield comes back before a tank does, a tank is back before a sortie
/// is, and nothing keeps a player away longer than losing a miner.
pub proof fn lemma_waits_are_in_proportion()
    ensures
        0 < INPUT_TIMEOUT < SHIELD_REGEN_DELAY < TANK_RESPAWN_DELAY < SORTIE_COOLDOWN
            < CAPTURE_LOCKOUT,
        PLANE_FUEL == CAPTURE_LOCKOUT,
        0 < SEEK_MINIMUM < AIM_TOLERANCE < INPUT_TIMEOUT,
{
}

} // verus!
