//! A client's view of the match: snapshot buffering and what is drawn from it.
//!
//! Other players and projectiles are interpolated: they are drawn slightly in
//! the past, sliding between the two snapshots that bracket that moment, so
//! movement stays smooth even though snapshots arrive 33 ms apart and sometimes
//! go missing. The vehicle under local control comes from prediction instead.

use std::collections::VecDeque;

use vstd::prelude::*;
use vstd::std_specs::vecdeque::*;
use vstd::string::*;

use crate::game::{Hill, OreDeposit};
use crate::measure::{gathered, MoveState, Real, Stamp, Vec2};
use crate::predict::{Air, Prediction, MAX_INPUT_HISTORY};
use crate::protocol::{
    GameStatus, HitFx, MinerMode, OreUpdate, PlaneSnapshot, PlayerInfo, PlayerSnapshot, PowerUp,
    ProjectileKind, ProjectileSnapshot, Snapshot, VehicleSlot, VehicleSnapshot, MAX_PLAYERS,
};

verus! {

/// How many snapshots are held.
pub const MAX_SNAPSHOTS: usize = 32;

/// How many lines the on-screen log shows.
pub const LOG_LINES: usize = 6;

/// A vehicle as drawn.
#[derive(Clone, Copy, Debug, PartialEq, Eq, Structural)]
pub struct RenderVehicle {
    pub pos: Vec2,
    pub yaw: Real,
    /// Bank angle. Always zero on the ground.
    pub roll: Real,
    /// Height above the ground. Zero on everything but the aircraft.
    pub alt: Real,
    /// Signed speed along `yaw`.
    pub speed: Real,
    pub turret_yaw: Real,
    pub shield: Real,
    pub hull: Real,
    pub cargo: Real,
    pub disabled: bool,
    pub capture_progress: Real,
}

/// A base emplacement as drawn. Its position is fixed by the player id, so only
/// what moves travels.
#[derive(Clone, Copy, Debug, PartialEq, Eq, Structural)]
pub struct RenderSentinel {
    pub hull: Real,
    pub turret_yaw: Real,
}

/// A player as drawn.
#[derive(Clone, Copy, Debug, PartialEq, Eq, Structural)]
pub struct RenderPlayer {
    pub id: u8,
    pub connected: bool,
    pub eliminated: bool,
    pub credits: u32,
    pub ore_mined: u32,
    pub powerups: u16,
    pub missiles: u8,
    pub captures: u8,
    /// What the miner does when nobody is driving it.
    pub miner_mode: MinerMode,
    /// Seconds until a captured player is back on the field; zero when they are
    /// on it.
    pub respawn_in: u8,
    pub tank: Option<RenderVehicle>,
    pub miner: Option<RenderVehicle>,
    /// Absent while the emplacement is rubble.
    pub sentinel: Option<RenderSentinel>,
    /// Present only while a sortie is in the air. Its `cargo` is the fuel left,
    /// as a fraction.
    pub plane: Option<RenderVehicle>,
    /// Seconds until another sortie can be called; zero when one is ready.
    pub plane_ready_in: u8,
}

/// A projectile as drawn.
#[derive(Clone, Copy, Debug, PartialEq, Eq, Structural)]
pub struct RenderProjectile {
    pub id: u16,
    pub kind: ProjectileKind,
    pub owner: u8,
    pub pos: Vec2,
    pub yaw: Real,
    pub alt: Real,
}

/// Everything the drawing reads. Rebuilt every frame from the snapshot buffer so
/// drawing never has to think about the network.
#[derive(Debug)]
pub struct RenderWorld {
    pub players: Vec<Option<RenderPlayer>>,
    pub projectiles: Vec<RenderProjectile>,
}

/// A snapshot, and when it arrived.
#[derive(Debug)]
pub struct Arrival {
    pub at: Stamp,
    pub snapshot: Snapshot,
}

/// An impact waiting to be drawn, and when it is due.
#[derive(Clone, Copy, Debug, PartialEq, Eq)]
pub struct Pending {
    pub at: Stamp,
    pub fx: HitFx,
}

/// One player slid part of the way between two snapshots. Each is only drawn
/// where both snapshots hold it.
#[derive(Clone, Copy, Debug, PartialEq, Eq, Structural)]
pub struct PlayerBlend {
    pub tank: RenderVehicle,
    pub miner: RenderVehicle,
    pub plane: RenderVehicle,
    pub sentinel_yaw: Real,
}

/// One projectile slid part of the way between two snapshots.
#[derive(Clone, Copy, Debug, PartialEq, Eq, Structural)]
pub struct ShellBlend {
    pub pos: Vec2,
    pub yaw: Real,
}

/// A frame between two snapshots: one entry for each player and projectile of
/// the newer of them.
#[derive(Debug)]
pub struct Blend {
    pub players: Vec<PlayerBlend>,
    pub shells: Vec<ShellBlend>,
}

/// The predicted vehicle, where it is drawn this frame.
#[derive(Clone, Copy, Debug, PartialEq, Eq, Structural)]
pub struct Pose {
    pub pos: Vec2,
    pub yaw: Real,
    pub roll: Real,
    pub alt: Real,
}

/// What prediction is to be anchored on.
#[derive(Clone, Copy, Debug, PartialEq, Eq, Structural)]
pub struct Anchor {
    pub vehicle: VehicleSnapshot,
    pub slot: VehicleSlot,
    pub air: Air,
    pub acked: u32,
    pub powerups: u16,
}

pub struct GameState {
    pub local_player: Option<u8>,
    pub world_seed: Option<u64>,
    pub ore: Vec<OreDeposit>,
    /// Impassable ground, made from the seed exactly as the server does.
    pub hills: Vec<Hill>,
    pub roster: Vec<PlayerInfo>,
    pub status: GameStatus,
    pub winner: Option<u8>,
    /// Cheat mode, as the server reports it.
    pub cheats: bool,
    /// Newest last.
    pub snapshots: VecDeque<Arrival>,
    pub render: RenderWorld,
    pub prediction: Prediction,
    /// Impacts are held rather than drawn on arrival because the world itself is
    /// drawn behind: showing a hit the moment its snapshot lands puts the flash
    /// ahead of the shot that caused it.
    pub pending_fx: Vec<Pending>,
    /// Recent events, newest last, for the on-screen log.
    pub log: VecDeque<String>,
    /// Server tick of the newest snapshot.
    pub server_tick: u32,
}

impl RenderVehicle {
    pub open spec fn from_snapshot_spec(v: VehicleSnapshot) -> RenderVehicle {
        RenderVehicle {
            pos: v.pos,
            yaw: v.yaw,
            roll: 0,
            alt: 0,
            speed: v.speed,
            turret_yaw: v.turret_yaw,
            shield: v.shield,
            hull: v.hull,
            cargo: v.cargo,
            disabled: v.disabled,
            capture_progress: v.capture_progress,
        }
    }

    /// A vehicle drawn just as a snapshot has it.
    pub fn from_snapshot(v: &VehicleSnapshot) -> (r: Self)
        ensures
            r.pos == v.pos && r.yaw == v.yaw && r.speed == v.speed,
            r.roll == 0 && r.alt == 0,
            r.turret_yaw == v.turret_yaw,
            r.shield == v.shield,
            r.hull == v.hull,
            r.cargo == v.cargo,
            r.disabled == v.disabled && r.capture_progress == v.capture_progress,
            r == RenderVehicle::from_snapshot_spec(*v),
    {
        RenderVehicle {
            pos: v.pos,
            yaw: v.yaw,
            roll: 0,
            alt: 0,
            speed: v.speed,
            turret_yaw: v.turret_yaw,
            shield: v.shield,
            hull: v.hull,
            cargo: v.cargo,
            disabled: v.disabled,
            capture_progress: v.capture_progress,
        }
    }
}

pub open spec fn plane_as_vehicle_spec(p: PlaneSnapshot) -> VehicleSnapshot {
    VehicleSnapshot {
        pos: p.pos,
        yaw: p.yaw,
        turret_yaw: p.yaw,
        speed: p.speed,
        cargo: p.fuel,
        shield: p.shield,
        hull: p.hull,
        disabled: false,
        capture_progress: 0,
    }
}

/// The aircraft as everything downstream wants it: a vehicle like any other.
///
/// The turret bearing is the airframe's own: it bombs what it is pointed at.
/// Fuel rides in on `cargo`, which is the one field on a vehicle that means
/// nothing to an aircraft and is already a "how full is it".
pub fn plane_as_vehicle(p: &PlaneSnapshot) -> (r: VehicleSnapshot)
    ensures
        r.pos == p.pos && r.yaw == p.yaw && r.speed == p.speed,
        r.turret_yaw == p.yaw,
        r.shield == p.shield,
        r.hull == p.hull,
        r.cargo == p.fuel,
        !r.disabled && r.capture_progress == 0,
        r == plane_as_vehicle_spec(*p),
{
    VehicleSnapshot {
        pos: p.pos,
        yaw: p.yaw,
        turret_yaw: p.yaw,
        speed: p.speed,
        cargo: p.fuel,
        shield: p.shield,
        hull: p.hull,
        disabled: false,
        capture_progress: 0,
    }
}

impl RenderPlayer {
    pub open spec fn vehicle_spec(&self, slot: VehicleSlot) -> Option<RenderVehicle> {
        match slot {
            VehicleSlot::Tank => self.tank,
            VehicleSlot::Miner => self.miner,
            VehicleSlot::Plane => self.plane,
        }
    }

    pub fn vehicle(&self, slot: VehicleSlot) -> (r: Option<&RenderVehicle>)
        ensures
            slot == VehicleSlot::Tank ==> (r is Some <==> self.tank is Some) && (r is Some ==> Some(*r->0)
                == self.tank),
            slot == VehicleSlot::Miner ==> (r is Some <==> self.miner is Some) && (r is Some ==> Some(
                *r->0,
            ) == self.miner),
            slot == VehicleSlot::Plane ==> (r is Some <==> self.plane is Some) && (r is Some ==> Some(
                *r->0,
            ) == self.plane),
            match r {
                Some(v) => self.vehicle_spec(slot) == Some(*v),
                None => self.vehicle_spec(slot) is None,
            },
    {
        match slot {
            VehicleSlot::Tank => self.tank.as_ref(),
            VehicleSlot::Miner => self.miner.as_ref(),
            VehicleSlot::Plane => self.plane.as_ref(),
        }
    }

    pub open spec fn sortie_ready_spec(&self) -> bool {
        PowerUp::Bomber.held_spec(self.powerups) && self.plane is None && self.plane_ready_in == 0
    }

    /// Whether a sortie can be called right now, which is what greys the key out
    /// rather than letting the player press something that does nothing.
    pub fn sortie_ready(&self) -> (r: bool)
        ensures
            r <==> PowerUp::Bomber.held_spec(self.powerups) && self.plane is None && self.plane_ready_in
                == 0,
            r == self.sortie_ready_spec(),
    {
        PowerUp::Bomber.held(self.powerups) && self.plane.is_none() && self.plane_ready_in == 0
    }

    /// A player with one vehicle changed.
    pub open spec fn with_vehicle(self, slot: VehicleSlot, v: Option<RenderVehicle>) -> RenderPlayer {
        match slot {
            VehicleSlot::Tank => RenderPlayer { tank: v, ..self },
            VehicleSlot::Miner => RenderPlayer { miner: v, ..self },
            VehicleSlot::Plane => RenderPlayer { plane: v, ..self },
        }
    }
}

/// The first player of a list under an id, among the first `n`.
pub open spec fn player_with(players: Seq<PlayerSnapshot>, id: u8, n: nat) -> Option<PlayerSnapshot>
    decreases n,
{
    if n == 0 {
        None
    } else {
        match player_with(players, id, (n - 1) as nat) {
            Some(p) => Some(p),
            None => if players[n - 1].id == id {
                Some(players[n - 1])
            } else {
                None
            },
        }
    }
}

/// Finds a player in a snapshot.
pub fn find_player(players: &Vec<PlayerSnapshot>, id: u8) -> (r: Option<PlayerSnapshot>)
    ensures
        r is Some ==> r->0.id == id && players@.contains(r->0),
        r is None ==> forall|i: int| 0 <= i < players@.len() ==> (#[trigger] players@[i]).id != id,
        r == player_with(players@, id, players@.len()),
{
    let mut found: Option<PlayerSnapshot> = None;
    let mut i: usize = 0;
    while i < players.len()
        invariant
            i <= players@.len(),
            found == player_with(players@, id, i as nat),
        decreases players.len() - i,
    {
        if found.is_none() && players[i].id == id {
            found = Some(players[i]);
        }
        i = i + 1;
    }
    proof {
        lemma_a_player_is_found_by_number(players@, id, players@.len());
    }
    found
}

/// Whether a list holds a projectile under an id.
pub open spec fn has_shell(shells: Seq<ProjectileSnapshot>, id: u16) -> bool {
    exists|i: int| 0 <= i < shells.len() && (#[trigger] shells[i]).id == id
}

fn knows_shell(shells: &Vec<ProjectileSnapshot>, id: u16) -> (r: bool)
    ensures
        r <==> exists|i: int| 0 <= i < shells@.len() && (#[trigger] shells@[i]).id == id,
        r == has_shell(shells@, id),
{
    let mut i: usize = 0;
    while i < shells.len()
        invariant
            i <= shells@.len(),
            forall|k: int| 0 <= k < i ==> (#[trigger] shells@[k]).id != id,
        decreases shells.len() - i,
    {
        if shells[i].id == id {
            return true;
        }
        i = i + 1;
    }
    false
}

/// What a player's snapshot says outright.
pub open spec fn plain_player(p: PlayerSnapshot) -> RenderPlayer {
    RenderPlayer {
        id: p.id,
        connected: p.connected,
        eliminated: p.eliminated,
        credits: p.credits,
        ore_mined: p.ore_mined,
        powerups: p.powerups,
        missiles: p.missiles,
        captures: p.captures,
        miner_mode: p.miner_mode,
        respawn_in: p.respawn_in,
        tank: match p.tank {
            Some(v) => Some(RenderVehicle::from_snapshot_spec(v)),
            None => None,
        },
        miner: match p.miner {
            Some(v) => Some(RenderVehicle::from_snapshot_spec(v)),
            None => None,
        },
        sentinel: match p.sentinel {
            Some(s) => Some(RenderSentinel { hull: s.hull, turret_yaw: s.turret_yaw }),
            None => None,
        },
        plane: match p.plane {
            Some(q) => Some(
                RenderVehicle {
                    roll: q.roll,
                    alt: q.alt,
                    ..RenderVehicle::from_snapshot_spec(plane_as_vehicle_spec(q))
                },
            ),
            None => None,
        },
        plane_ready_in: p.plane_ready_in,
    }
}

/// A player between two snapshots. Whatever was not there in the older one has
/// nothing to come from, so it starts where the newer one puts it.
pub open spec fn blended_player(
    before: Option<PlayerSnapshot>,
    p: PlayerSnapshot,
    b: PlayerBlend,
) -> RenderPlayer {
    let plain = plain_player(p);
    match before {
        None => plain,
        Some(a) => RenderPlayer {
            tank: match (a.tank, p.tank) {
                (Some(_), Some(v)) => Some(
                    RenderVehicle { roll: 0, alt: 0, disabled: v.disabled, ..b.tank },
                ),
                _ => plain.tank,
            },
            miner: match (a.miner, p.miner) {
                (Some(_), Some(v)) => Some(
                    RenderVehicle { roll: 0, alt: 0, disabled: v.disabled, ..b.miner },
                ),
                _ => plain.miner,
            },
            sentinel: match (a.sentinel, p.sentinel) {
                (Some(_), Some(s)) => Some(
                    RenderSentinel { hull: s.hull, turret_yaw: b.sentinel_yaw },
                ),
                _ => plain.sentinel,
            },
            plane: match (a.plane, p.plane) {
                (Some(_), Some(_)) => Some(RenderVehicle { disabled: false, ..b.plane }),
                _ => plain.plane,
            },
            ..plain
        },
    }
}

fn draw_plain(p: &PlayerSnapshot) -> (r: RenderPlayer)
    ensures
        r.id == p.id && r.connected == p.connected && r.eliminated == p.eliminated,
        r.credits == p.credits && r.ore_mined == p.ore_mined,
        r.powerups == p.powerups && r.missiles == p.missiles && r.captures == p.captures,
        r.miner_mode == p.miner_mode && r.respawn_in == p.respawn_in && r.plane_ready_in
            == p.plane_ready_in,
        r.tank is Some <==> p.tank is Some,
        p.tank is Some ==> draws(r.tank->0, p.tank->0) && r.tank->0.roll == 0 && r.tank->0.alt == 0,
        r.miner is Some <==> p.miner is Some,
        p.miner is Some ==> draws(r.miner->0, p.miner->0) && r.miner->0.roll == 0 && r.miner->0.alt == 0,
        r.sentinel is Some <==> p.sentinel is Some,
        p.sentinel is Some ==> r.sentinel->0.hull == p.sentinel->0.hull && r.sentinel->0.turret_yaw
            == p.sentinel->0.turret_yaw,
        r.plane is Some <==> p.plane is Some,
        p.plane is Some ==> {
            let (v, q) = (r.plane->0, p.plane->0);
            &&& v.pos == q.pos && v.yaw == q.yaw && v.roll == q.roll && v.alt == q.alt
            &&& v.speed == q.speed && v.shield == q.shield && v.hull == q.hull && v.cargo == q.fuel
            &&& v.turret_yaw == q.yaw && !v.disabled
        },
        r == plain_player(*p),
{
    RenderPlayer {
        id: p.id,
        connected: p.connected,
        eliminated: p.eliminated,
        credits: p.credits,
        ore_mined: p.ore_mined,
        powerups: p.powerups,
        missiles: p.missiles,
        captures: p.captures,
        miner_mode: p.miner_mode,
        respawn_in: p.respawn_in,
        tank: match &p.tank {
            Some(v) => Some(RenderVehicle::from_snapshot(v)),
            None => None,
        },
        miner: match &p.miner {
            Some(v) => Some(RenderVehicle::from_snapshot(v)),
            None => None,
        },
        sentinel: match &p.sentinel {
            Some(s) => Some(RenderSentinel { hull: s.hull, turret_yaw: s.turret_yaw }),
            None => None,
        },
        plane: match &p.plane {
            Some(q) => {
                let mut v = RenderVehicle::from_snapshot(&plane_as_vehicle(q));
                v.roll = q.roll;
                v.alt = q.alt;
                Some(v)
            },
            None => None,
        },
        plane_ready_in: p.plane_ready_in,
    }
}

fn draw_blended(before: Option<PlayerSnapshot>, p: &PlayerSnapshot, b: &PlayerBlend) -> (r:
    RenderPlayer)
    ensures
        r.id == p.id && r.connected == p.connected && r.eliminated == p.eliminated,
        r.credits == p.credits && r.ore_mined == p.ore_mined,
        r.powerups == p.powerups && r.missiles == p.missiles && r.captures == p.captures,
        r.tank is Some <==> p.tank is Some,
        r.miner is Some <==> p.miner is Some,
        r.plane is Some <==> p.plane is Some,
        r.sentinel is Some <==> p.sentinel is Some,
        before is Some && before->0.tank is Some && p.tank is Some ==> r.tank->0.pos == b.tank.pos
            && r.tank->0.yaw == b.tank.yaw && r.tank->0.hull == b.tank.hull && r.tank->0.shield
            == b.tank.shield && r.tank->0.disabled == p.tank->0.disabled,
        before is Some && before->0.miner is Some && p.miner is Some ==> r.miner->0.pos == b.miner.pos
            && r.miner->0.hull == b.miner.hull && r.miner->0.shield == b.miner.shield
            && r.miner->0.cargo == b.miner.cargo && r.miner->0.disabled == p.miner->0.disabled,
        before is Some && before->0.plane is Some && p.plane is Some ==> r.plane->0.pos == b.plane.pos
            && r.plane->0.roll == b.plane.roll && r.plane->0.alt == b.plane.alt,
        before is None || before->0.tank is None ==> (p.tank is Some ==> draws(r.tank->0, p.tank->0)),
        before is None || before->0.miner is None ==> (p.miner is Some ==> draws(
            r.miner->0,
            p.miner->0,
        )),
        before is None || before->0.plane is None ==> (p.plane is Some ==> r.plane->0.pos
            == p.plane->0.pos),
        r == blended_player(before, *p, *b),
{
    let mut out = draw_plain(p);
    if let Some(a) = before {
        if let (Some(_), Some(v)) = (a.tank, p.tank) {
            let mut drawn = b.tank;
            drawn.roll = 0;
            drawn.alt = 0;
            drawn.disabled = v.disabled;
            out.tank = Some(drawn);
        }
        if let (Some(_), Some(v)) = (a.miner, p.miner) {
            let mut drawn = b.miner;
            drawn.roll = 0;
            drawn.alt = 0;
            drawn.disabled = v.disabled;
            out.miner = Some(drawn);
        }
        if let (Some(_), Some(s)) = (a.sentinel, p.sentinel) {
            out.sentinel = Some(RenderSentinel { hull: s.hull, turret_yaw: b.sentinel_yaw });
        }
        if let (Some(_), Some(_)) = (a.plane, p.plane) {
            let mut drawn = b.plane;
            drawn.disabled = false;
            out.plane = Some(drawn);
        }
    }
    out
}

/// The slots once `players[..n]` have been drawn into them.
pub open spec fn drawn_slots(players: Seq<RenderPlayer>, n: nat) -> Seq<Option<RenderPlayer>>
    decreases n,
{
    if n == 0 {
        Seq::new(MAX_PLAYERS as nat, |i: int| None::<RenderPlayer>)
    } else {
        let before = drawn_slots(players, (n - 1) as nat);
        let p = players[n - 1];
        if (p.id as int) < MAX_PLAYERS {
            before.update(p.id as int, Some(p))
        } else {
            before
        }
    }
}

/// Each player of a snapshot, drawn.
pub open spec fn drawn_players(
    older: Option<Seq<PlayerSnapshot>>,
    players: Seq<PlayerSnapshot>,
    blends: Seq<PlayerBlend>,
) -> Seq<RenderPlayer> {
    Seq::new(
        players.len(),
        |i: int|
            match older {
                Some(a) => blended_player(
                    player_with(a, players[i].id, a.len()),
                    players[i],
                    blends[i],
                ),
                None => plain_player(players[i]),
            },
    )
}

/// Each projectile of a snapshot, drawn. A newly fired one has no earlier state
/// to come from. Its height is held rather than interpolated: a cannon round
/// flies level for its whole life.
pub open spec fn drawn_shells(
    older: Option<Seq<ProjectileSnapshot>>,
    shells: Seq<ProjectileSnapshot>,
    blends: Seq<ShellBlend>,
) -> Seq<RenderProjectile> {
    Seq::new(
        shells.len(),
        |i: int|
            {
                let slid = older is Some && has_shell(older->0, shells[i].id);
                RenderProjectile {
                    id: shells[i].id,
                    kind: shells[i].kind,
                    owner: shells[i].owner,
                    pos: if slid {
                        blends[i].pos
                    } else {
                        shells[i].pos
                    },
                    yaw: if slid {
                        blends[i].yaw
                    } else {
                        shells[i].yaw
                    },
                    alt: shells[i].alt,
                }
            },
    )
}

/// A vehicle drawn where prediction has it.
pub open spec fn predicted_vehicle(v: RenderVehicle, slot: VehicleSlot, pose: Pose, speed: Real) -> RenderVehicle {
    if slot == VehicleSlot::Plane {
        RenderVehicle { pos: pose.pos, yaw: pose.yaw, roll: pose.roll, alt: pose.alt, speed, ..v }
    } else {
        RenderVehicle { pos: pose.pos, yaw: pose.yaw, ..v }
    }
}

/// The slots with the predicted vehicle put where prediction has it.
pub open spec fn with_prediction(
    players: Seq<Option<RenderPlayer>>,
    local: u8,
    slot: VehicleSlot,
    pose: Pose,
    speed: Real,
) -> Seq<Option<RenderPlayer>> {
    if (local as int) < players.len() && players[local as int] is Some
        && players[local as int]->0.vehicle_spec(slot) is Some {
        let p = players[local as int]->0;
        players.update(
            local as int,
            Some(
                p.with_vehicle(
                    slot,
                    Some(predicted_vehicle(p.vehicle_spec(slot)->0, slot, pose, speed)),
                ),
            ),
        )
    } else {
        players
    }
}

/// Whether arrival `i` and the next bracket a moment, and no earlier pair does.
pub open spec fn brackets(arrivals: Seq<Arrival>, target: Stamp, i: int) -> bool {
    &&& straddles(arrivals, target, i)
    &&& forall|k: int| 0 <= k < i ==> !straddles(arrivals, target, k)
}

pub open spec fn straddles(arrivals: Seq<Arrival>, target: Stamp, i: int) -> bool {
    0 <= i < arrivals.len() - 1 && arrivals[i].at <= target <= arrivals[i + 1].at
}

/// Amounts of ore once `updates[..n]` have been applied.
pub open spec fn ore_after(
    ore: Seq<OreDeposit>,
    updates: Seq<OreUpdate>,
    amounts: Seq<Real>,
    n: nat,
) -> Seq<OreDeposit>
    decreases n,
{
    if n == 0 {
        ore
    } else {
        let before = ore_after(ore, updates, amounts, (n - 1) as nat);
        let id = updates[n - 1].id as int;
        if id < before.len() {
            before.update(id, OreDeposit { amount: amounts[n - 1], ..before[id] })
        } else {
            before
        }
    }
}

/// A log with one line more, cut to what is shown.
pub open spec fn shown(log: Seq<Seq<char>>, line: Seq<char>) -> Seq<Seq<char>> {
    if log.len() < LOG_LINES {
        log.push(line)
    } else {
        log.skip(1).push(line)
    }
}

/// What the log says.
pub open spec fn log_text(log: Seq<String>) -> Seq<Seq<char>> {
    log.map_values(|s: String| s@)
}

/// What the snapshot of a local player says of the vehicle being predicted.
pub open spec fn anchor_of(me: PlayerSnapshot, slot: VehicleSlot, acked: u32) -> Option<Anchor> {
    let vehicle = match slot {
        VehicleSlot::Tank => me.tank,
        VehicleSlot::Miner => me.miner,
        VehicleSlot::Plane => match me.plane {
            Some(q) => Some(plane_as_vehicle_spec(q)),
            None => None,
        },
    };
    match vehicle {
        Some(v) => Some(
            Anchor {
                vehicle: v,
                slot,
                air: match me.plane {
                    Some(q) => Air { roll: q.roll, alt: q.alt },
                    None => Air { roll: 0, alt: 0 },
                },
                acked,
                powerups: me.powerups,
            },
        ),
        None => None,
    }
}

/// Each impact of a snapshot, due when the world is drawn at its moment.
pub open spec fn pending(hits: Seq<HitFx>, at: Stamp) -> Seq<Pending> {
    Seq::new(hits.len(), |i: int| Pending { at, fx: hits[i] })
}

/// The impacts whose moment has come.
pub open spec fn due_fx(waiting: Seq<Pending>, now: Stamp, n: nat) -> Seq<HitFx> {
    gathered(
        n,
        |i: int|
            if waiting[i].at <= now {
                seq![waiting[i].fx]
            } else {
                Seq::empty()
            },
    )
}

/// The impacts whose moment has not.
pub open spec fn still_pending(waiting: Seq<Pending>, now: Stamp, n: nat) -> Seq<Pending> {
    gathered(
        n,
        |i: int|
            if waiting[i].at <= now {
                Seq::empty()
            } else {
                seq![waiting[i]]
            },
    )
}

/// The name a roster gives an id, among its first `n` entries.
pub open spec fn listed_name(roster: Seq<PlayerInfo>, id: u8, n: nat) -> Option<Seq<char>>
    decreases n,
{
    if n == 0 {
        None
    } else {
        match listed_name(roster, id, (n - 1) as nat) {
            Some(name) => Some(name),
            None => if roster[n - 1].id == id {
                Some(roster[n - 1].name@)
            } else {
                None
            },
        }
    }
}

/// What a player is called: the name on the roster, or the colour of the slot.
pub open spec fn name_for(roster: Seq<PlayerInfo>, colors: Seq<String>, id: u8) -> Seq<char> {
    match listed_name(roster, id, roster.len()) {
        Some(name) => name,
        None => colors[id as int % MAX_PLAYERS as int]@,
    }
}

impl GameState {
    /// The buffers are no longer than they may be, the snapshots' ticks only
    /// ever go up, and there is a slot to draw for every player.
    pub open spec fn wf(&self) -> bool {
        &&& self.snapshots@.len() <= MAX_SNAPSHOTS
        &&& forall|i: int, j: int|
            0 <= i < j < self.snapshots@.len() ==> (#[trigger] self.snapshots@[i]).snapshot.tick < (
            #[trigger] self.snapshots@[j]).snapshot.tick
        &&& self.log@.len() <= LOG_LINES
        &&& self.prediction.history@.len() <= MAX_INPUT_HISTORY
        &&& self.render.players@.len() == MAX_PLAYERS
    }

    /// A client that has heard nothing yet.
    pub fn new() -> (r: Self)
        ensures
            r.wf(),
            r.local_player is None,
            r.world_seed is None,
            r.ore@.len() == 0,
            r.hills@.len() == 0,
            r.roster@.len() == 0,
            r.status == GameStatus::Waiting,
            r.winner is None,
            !r.cheats,
            r.snapshots@.len() == 0,
            r.render.players@ == Seq::new(MAX_PLAYERS as nat, |i: int| None::<RenderPlayer>),
            r.render.projectiles@.len() == 0,
            !r.prediction.active,
            r.prediction.slot == VehicleSlot::Tank,
            r.prediction.history@.len() == 0,
            r.prediction.state == (MoveState {
                pos: Vec2 { x: 0, y: 0 },
                yaw: 0,
                speed: 0,
                roll: 0,
                alt: 0,
            }),
            r.prediction.previous == r.prediction.state,
            r.prediction.offset == (Vec2 { x: 0, y: 0 }),
            r.prediction.yaw_offset == 0,
            r.pending_fx@.len() == 0,
            r.log@.len() == 0,
            r.server_tick == 0,
    {
        let mut players: Vec<Option<RenderPlayer>> = Vec::new();
        players.push(None);
        players.push(None);
        players.push(None);
        players.push(None);
        GameState {
            local_player: None,
            world_seed: None,
            ore: Vec::new(),
            hills: Vec::new(),
            roster: Vec::new(),
            status: GameStatus::Waiting,
            winner: None,
            cheats: false,
            snapshots: VecDeque::new(),
            render: RenderWorld { players, projectiles: Vec::new() },
            prediction: Prediction::new(),
            pending_fx: Vec::new(),
            log: VecDeque::new(),
            server_tick: 0,
        }
    }

    /// Takes up the field a seed gives, unless it is the one already held.
    pub fn adopt_world(&mut self, seed: u64, ore: Vec<OreDeposit>, hills: Vec<Hill>)
        ensures
            *final(self) == if old(self).world_seed == Some(seed) {
                *old(self)
            } else {
                GameState { world_seed: Some(seed), ore, hills, ..*old(self) }
            },
    {
        if let Some(held) = self.world_seed {
            if held == seed {
                return;
            }
        }
        self.world_seed = Some(seed);
        self.ore = ore;
        self.hills = hills;
    }

    /// Switches to the map of a match that has just been restarted.
    ///
    /// The buffered snapshots describe the old match, where the vehicles were
    /// somewhere out on the field. Interpolating from those into the new ones
    /// would slide every vehicle across the map to its pad, so the buffer is
    /// dropped and drawing resumes from the first snapshot of the new match.
    pub fn begin_new_match(&mut self, seed: u64, ore: Vec<OreDeposit>, hills: Vec<Hill>)
        requires
            old(self).wf(),
        ensures
            final(self).wf(),
            final(self).snapshots@.len() == 0,
            final(self).pending_fx@.len() == 0,
            *final(self) == (GameState {
                world_seed: Some(seed),
                ore: if old(self).world_seed == Some(seed) {
                    old(self).ore
                } else {
                    ore
                },
                hills: if old(self).world_seed == Some(seed) {
                    old(self).hills
                } else {
                    hills
                },
                winner: None,
                snapshots: final(self).snapshots,
                pending_fx: final(self).pending_fx,
                prediction: Prediction { active: false, ..old(self).prediction },
                ..*old(self)
            }),
    {
        self.adopt_world(seed, ore, hills);
        self.snapshots.clear();
        self.pending_fx.clear();
        self.prediction.active = false;
        self.winner = None;
    }

    /// Hands over the impacts whose moment has come, keeping the rest.
    pub fn take_due_fx(&mut self, now: Stamp) -> (r: Vec<HitFx>)
        ensures
            r@.len() + final(self).pending_fx@.len() == old(self).pending_fx@.len(),
            forall|k: int|
                0 <= k < final(self).pending_fx@.len() ==> (#[trigger] final(self).pending_fx@[k]).at > now,
            forall|k: int|
                0 <= k < old(self).pending_fx@.len() && (#[trigger] old(self).pending_fx@[k]).at <= now
                    ==> r@.contains(old(self).pending_fx@[k].fx),
            forall|k: int|
                0 <= k < old(self).pending_fx@.len() && (#[trigger] old(self).pending_fx@[k]).at > now
                    ==> final(self).pending_fx@.contains(old(self).pending_fx@[k]),
            *final(self) == (GameState { pending_fx: final(self).pending_fx, ..*old(self) }),
            final(self).pending_fx@ == still_pending(
                old(self).pending_fx@,
                now,
                old(self).pending_fx@.len(),
            ),
            r@ == due_fx(old(self).pending_fx@, now, old(self).pending_fx@.len()),
    {
        let mut due: Vec<HitFx> = Vec::new();
        let mut waiting: Vec<Pending> = Vec::new();
        let mut i: usize = 0;
        while i < self.pending_fx.len()
            invariant
                i <= self.pending_fx@.len(),
                *self == *old(self),
                waiting@ == still_pending(self.pending_fx@, now, i as nat),
                due@ == due_fx(self.pending_fx@, now, i as nat),
            decreases self.pending_fx.len() - i,
        {
            let p = self.pending_fx[i];
            if p.at <= now {
                due.push(p.fx);
            } else {
                waiting.push(p);
            }
            i = i + 1;
        }
        proof {
            let all = self.pending_fx@;
            lemma_what_waits_is_later(all, now, all.len());
            assert forall|k: int| 0 <= k < all.len() && (#[trigger] all[k]).at <= now implies due@.contains(
                all[k].fx,
            ) by {
                lemma_an_impact_has_its_moment(all, now, k);
            }
            assert forall|k: int| 0 <= k < all.len() && (#[trigger] all[k]).at > now implies waiting@.contains(
                all[k],
            ) by {
                lemma_an_impact_has_its_moment(all, now, k);
            }
        }
        self.pending_fx = waiting;
        due
    }

    /// Adds a line to the on-screen log.
    pub fn note(&mut self, message: String)
        requires
            old(self).log@.len() <= LOG_LINES,
        ensures
            final(self).log@.last()@ == message@,
            old(self).log@.len() < LOG_LINES ==> final(self).log@.len() == old(self).log@.len() + 1,
            old(self).log@.len() == LOG_LINES ==> final(self).log@.len() == LOG_LINES,
            forall|k: int|
                0 <= k < final(self).log@.len() - 1 ==> #[trigger] final(self).log@[k] == old(self).log@[k
                    + old(self).log@.len() + 1 - final(self).log@.len()],
            *final(self) == (GameState { log: final(self).log, ..*old(self) }),
            log_text(final(self).log@) == shown(log_text(old(self).log@), message@),
            final(self).log@.len() <= LOG_LINES,
    {
        self.log.push_back(message);
        if self.log.len() > LOG_LINES {
            self.log.pop_front();
        }
        assert(log_text(self.log@) =~= shown(log_text(old(self).log@), message@));
    }

    pub open spec fn local_spec(&self) -> Option<RenderPlayer> {
        match self.local_player {
            Some(id) => if (id as int) < self.render.players@.len() {
                self.render.players@[id as int]
            } else {
                None
            },
            None => None,
        }
    }

    /// Whether the match is in cheat mode. Taken from the server rather than
    /// from whether this client asked for it, since any player can toggle it.
    pub fn cheats(&self) -> (r: bool)
        ensures
            r == self.cheats,
    {
        self.cheats
    }

    /// The local player as drawn.
    pub fn local(&self) -> (r: Option<&RenderPlayer>)
        ensures
            self.local_player is None ==> r is None,
            r is Some ==> (self.local_player->0 as int) < self.render.players@.len()
                && self.render.players@[self.local_player->0 as int] == Some(*r->0),
            self.local_player is Some && (self.local_player->0 as int) < self.render.players@.len() ==> (
            r is Some <==> self.render.players@[self.local_player->0 as int] is Some),
            match r {
                Some(p) => self.local_spec() == Some(*p),
                None => self.local_spec() is None,
            },
    {
        match self.local_player {
            Some(id) => {
                if (id as usize) < self.render.players.len() {
                    self.render.players[id as usize].as_ref()
                } else {
                    None
                }
            },
            None => None,
        }
    }

    /// What a player is called. `colors` holds a name for each slot.
    pub fn name_of(&self, id: u8, colors: &Vec<String>) -> (r: String)
        requires
            colors@.len() == MAX_PLAYERS,
        ensures
            match listed_name(self.roster@, id, self.roster@.len()) {
                Some(name) => r@ == name,
                None => r@ == colors@[id as int % 4]@,
            },
            (forall|i: int| 0 <= i < self.roster@.len() ==> (#[trigger] self.roster@[i]).id != id) ==> r@
                == colors@[id as int % 4]@,
            forall|i: int|
                0 <= i < self.roster@.len() && (#[trigger] self.roster@[i]).id == id && (forall|j: int|
                    0 <= j < i ==> (#[trigger] self.roster@[j]).id != id) ==> r@ == self.roster@[i].name@,
            r@ == name_for(self.roster@, colors@, id),
    {
        let mut found: Option<usize> = None;
        let mut i: usize = 0;
        while i < self.roster.len()
            invariant
                i <= self.roster@.len(),
                match found {
                    Some(k) => k < i && listed_name(self.roster@, id, i as nat) == Some(
                        self.roster@[k as int].name@,
                    ),
                    None => listed_name(self.roster@, id, i as nat) is None,
                },
            decreases self.roster.len() - i,
        {
            if found.is_none() && self.roster[i].id == id {
                found = Some(i);
            }
            i = i + 1;
        }
        proof {
            lemma_a_name_is_found_by_number(self.roster@, id, self.roster@.len());
        }
        match found {
            Some(k) => self.roster[k].name.clone(),
            None => colors[id as usize % MAX_PLAYERS].clone(),
        }
    }

    /// Whether a snapshot is newer than everything held. Snapshots ride an
    /// unreliable channel and can arrive out of order; an older one has nothing
    /// to add.
    pub open spec fn is_news(&self, tick: u32) -> bool {
        self.snapshots@.len() == 0 || tick > self.snapshots@.last().snapshot.tick
    }

    /// Accepts a snapshot and updates everything derived from it. `now` is when
    /// it arrived, `due` when the world is drawn at its moment, and `amounts`
    /// what each of its ore updates leaves.
    ///
    /// Hands back what prediction is to be anchored on with
    /// [`Prediction::reconcile`], if there is anything.
    pub fn push_snapshot(
        &mut self,
        now: Stamp,
        due: Stamp,
        amounts: &Vec<Real>,
        snapshot: Snapshot,
    ) -> (r: Option<Anchor>)
        requires
            old(self).wf(),
            amounts@.len() == snapshot.ore@.len(),
        ensures
            old(self).snapshots@.len() > 0 && snapshot.tick <= old(self).snapshots@.last().snapshot.tick
                ==> *final(self) == *old(self) && r is None,
            old(self).snapshots@.len() == 0 || snapshot.tick > old(self).snapshots@.last().snapshot.tick
                ==> {
                &&& final(self).snapshots@.last().at == now
                &&& final(self).snapshots@.last().snapshot == snapshot
                &&& final(self).server_tick == snapshot.tick && final(self).status == snapshot.status
                &&& final(self).winner == snapshot.winner && final(self).cheats == snapshot.cheats
                &&& final(self).pending_fx@.len() == old(self).pending_fx@.len() + snapshot.hits@.len()
                &&& final(self).ore@.len() == old(self).ore@.len()
            },
            r is Some ==> r->0.acked == snapshot.acked_input && r->0.slot == old(self).prediction.slot,
            final(self).wf(),
            !old(self).is_news(snapshot.tick) ==> *final(self) == *old(self) && r is None,
            old(self).is_news(snapshot.tick) ==> {
                let me = match old(self).local_player {
                    Some(id) => player_with(snapshot.players@, id, snapshot.players@.len()),
                    None => None,
                };
                let anchor = match me {
                    Some(p) => anchor_of(p, old(self).prediction.slot, snapshot.acked_input),
                    None => None,
                };
                &&& r == anchor
                &&& *final(self) == GameState {
                    status: snapshot.status,
                    winner: snapshot.winner,
                    cheats: snapshot.cheats,
                    server_tick: snapshot.tick,
                    log: final(self).log,
                    pending_fx: final(self).pending_fx,
                    ore: final(self).ore,
                    prediction: Prediction {
                        active: old(self).prediction.active && !(me is Some && anchor is None),
                        ..old(self).prediction
                    },
                    snapshots: final(self).snapshots,
                    ..*old(self)
                }
                &&& log_text(final(self).log@) =~= if snapshot.cheats == old(self).cheats {
                    log_text(old(self).log@)
                } else if snapshot.cheats {
                    shown(log_text(old(self).log@), "Cheat mode ON"@)
                } else {
                    shown(log_text(old(self).log@), "Cheat mode off"@)
                }
                &&& final(self).pending_fx@ =~= old(self).pending_fx@ + pending(
                    snapshot.hits@,
                    due,
                )
                &&& final(self).ore@ =~= ore_after(
                    old(self).ore@,
                    snapshot.ore@,
                    amounts@,
                    amounts@.len(),
                )
                &&& final(self).snapshots@ =~= if old(self).snapshots@.len() < MAX_SNAPSHOTS {
                    old(self).snapshots@.push(Arrival { at: now, snapshot })
                } else {
                    old(self).snapshots@.skip(1).push(Arrival { at: now, snapshot })
                }
            },
    {
        let n = self.snapshots.len();
        if n > 0 && snapshot.tick <= self.snapshots[n - 1].snapshot.tick {
            return None;
        }
        self.status = snapshot.status;
        self.winner = snapshot.winner;
        if snapshot.cheats != self.cheats {
            self.cheats = snapshot.cheats;
            // Worth saying out loud: it is match-wide, so somebody else may have
            // been the one who turned it on.
            if snapshot.cheats {
                self.note("Cheat mode ON".to_owned());
            } else {
                self.note("Cheat mode off".to_owned());
            }
        }
        self.server_tick = snapshot.tick;

        let ghost mid = *self;
        let mut h: usize = 0;
        while h < snapshot.hits.len()
            invariant
                h <= snapshot.hits@.len(),
                *self == (GameState { pending_fx: self.pending_fx, ..mid }),
                self.pending_fx@ =~= mid.pending_fx@ + pending(snapshot.hits@, due).take(h as int),
            decreases snapshot.hits.len() - h,
        {
            self.pending_fx.push(Pending { at: due, fx: snapshot.hits[h] });
            h = h + 1;
        }
        assert(pending(snapshot.hits@, due).take(h as int) =~= pending(snapshot.hits@, due));

        // A full sync replaces everything; otherwise only the deposits the
        // server says changed.
        let ghost mid2 = *self;
        let mut u: usize = 0;
        while u < snapshot.ore.len()
            invariant
                u <= snapshot.ore@.len(),
                amounts@.len() == snapshot.ore@.len(),
                *self == (GameState { ore: self.ore, ..mid2 }),
                self.ore@ =~= ore_after(mid2.ore@, snapshot.ore@, amounts@, u as nat),
            decreases snapshot.ore.len() - u,
        {
            let id = snapshot.ore[u].id as usize;
            if id < self.ore.len() {
                let mut deposit = self.ore[id];
                deposit.amount = amounts[u];
                self.ore[id] = deposit;
            }
            u = u + 1;
        }

        let mut anchor: Option<Anchor> = None;
        if let Some(local) = self.local_player {
            if let Some(me) = find_player(&snapshot.players, local) {
                let slot = self.prediction.slot;
                let vehicle: Option<VehicleSnapshot> = match slot {
                    VehicleSlot::Tank => me.tank,
                    VehicleSlot::Miner => me.miner,
                    VehicleSlot::Plane => match &me.plane {
                        Some(q) => Some(plane_as_vehicle(q)),
                        None => None,
                    },
                };
                let air = match &me.plane {
                    Some(q) => Air { roll: q.roll, alt: q.alt },
                    None => Air { roll: 0, alt: 0 },
                };
                match vehicle {
                    Some(v) => {
                        anchor = Some(
                            Anchor {
                                vehicle: v,
                                slot,
                                air,
                                acked: snapshot.acked_input,
                                powerups: me.powerups,
                            },
                        );
                    },
                    // The vehicle is gone (destroyed, or captured); nothing to
                    // predict until it comes back.
                    None => {
                        self.prediction.active = false;
                    },
                }
            }
        }

        proof {
            lemma_each_deposit_is_as_last_told(
                mid2.ore@,
                snapshot.ore@,
                amounts@,
                amounts@.len(),
            );
        }
        self.snapshots.push_back(Arrival { at: now, snapshot });
        if self.snapshots.len() > MAX_SNAPSHOTS {
            self.snapshots.pop_front();
        }
        anchor
    }

    /// Tells prediction which vehicle to follow when the player switches.
    pub fn set_predicted_slot(&mut self, slot: VehicleSlot)
        ensures
            *final(self) == (GameState {
                prediction: if old(self).prediction.slot == slot {
                    old(self).prediction
                } else {
                    Prediction { slot, active: false, ..old(self).prediction }
                },
                ..*old(self)
            }),
    {
        self.prediction.follow(slot);
    }

    /// Finds the pair of snapshots that straddle the moment being drawn.
    pub fn bracket(&self, target: Stamp) -> (r: Option<usize>)
        ensures
            match r {
                Some(i) => i + 1 < self.snapshots@.len() && self.snapshots@[i as int].at <= target
                    && target <= self.snapshots@[i + 1].at,
                None => forall|i: int|
                    0 <= i < self.snapshots@.len() - 1 ==> target < (#[trigger] self.snapshots@[i]).at
                        || self.snapshots@[i + 1].at < target,
            },
            match r {
                Some(i) => brackets(self.snapshots@, target, i as int),
                None => forall|i: int| !straddles(self.snapshots@, target, i),
            },
    {
        let n = self.snapshots.len();
        if n == 0 {
            return None;
        }
        let mut i: usize = 0;
        while i < n - 1
            invariant
                n == self.snapshots@.len(),
                n > 0,
                i <= n - 1,
                forall|k: int| 0 <= k < i ==> !straddles(self.snapshots@, target, k),
            decreases n - i,
        {
            if self.snapshots[i].at <= target && target <= self.snapshots[i + 1].at {
                return Some(i);
            }
            i = i + 1;
        }
        assert forall|k: int| 0 <= k < self.snapshots@.len() - 1 implies target < (
        #[trigger] self.snapshots@[k]).at || self.snapshots@[k + 1].at < target by {
            assert(!straddles(self.snapshots@, target, k));
        }
        None
    }

    /// The snapshot a frame is drawn from: the newer of the pair that straddles
    /// it, or the newest there is.
    pub open spec fn frame_source(&self, pair: Option<usize>) -> Option<Snapshot> {
        match pair {
            Some(i) => Some(self.snapshots@[i + 1].snapshot),
            None => if self.snapshots@.len() > 0 {
                Some(self.snapshots@.last().snapshot)
            } else {
                None
            },
        }
    }

    /// The snapshot a frame slides out of, if there is one.
    pub open spec fn frame_origin(&self, pair: Option<usize>) -> Option<Snapshot> {
        match pair {
            Some(i) => Some(self.snapshots@[i as int].snapshot),
            None => None,
        }
    }

    /// The players of a frame, before prediction is laid over them.
    pub open spec fn frame_players(&self, pair: Option<usize>, blend: &Blend) -> Seq<
        Option<RenderPlayer>,
    > {
        match self.frame_source(pair) {
            None => Seq::new(MAX_PLAYERS as nat, |i: int| None::<RenderPlayer>),
            Some(b) => {
                let older = match self.frame_origin(pair) {
                    Some(a) => Some(a.players@),
                    None => None,
                };
                drawn_slots(
                    drawn_players(older, b.players@, blend.players@),
                    b.players@.len(),
                )
            },
        }
    }

    pub open spec fn frame_shells(&self, pair: Option<usize>, blend: &Blend) -> Seq<
        RenderProjectile,
    > {
        match self.frame_source(pair) {
            None => Seq::empty(),
            Some(b) => {
                let older = match self.frame_origin(pair) {
                    Some(a) => Some(a.projectiles@),
                    None => None,
                };
                drawn_shells(older, b.projectiles@, blend.shells@)
            },
        }
    }

    /// Rebuilds what is drawn for the current frame.
    ///
    /// `pair` is what [`GameState::bracket`] found, `blend` the players and
    /// projectiles of the newer snapshot of the pair slid to the moment, and
    /// `pose` where prediction has the vehicle it follows. With no pair -- not
    /// enough history yet, or fallen behind the buffer -- the newest thing there
    /// is is shown rather than nothing.
    pub fn interpolate(&mut self, pair: Option<usize>, blend: &Blend, pose: Pose)
        requires
            old(self).wf(),
            match pair {
                Some(i) => {
                    &&& i + 1 < old(self).snapshots@.len()
                    &&& blend.players@.len() == old(
                        self,
                    ).snapshots@[i + 1].snapshot.players@.len()
                    &&& blend.shells@.len() == old(
                        self,
                    ).snapshots@[i + 1].snapshot.projectiles@.len()
                },
                None => true,
            },
        ensures
            pair is None && old(self).snapshots@.len() == 0 ==> final(self).render.projectiles@.len() == 0,
            pair is None && old(self).snapshots@.len() > 0 ==> {
                let last = old(self).snapshots@.last().snapshot.projectiles@;
                &&& final(self).render.projectiles@.len() == last.len()
                &&& forall|k: int|
                    0 <= k < last.len() ==> {
                        let r = #[trigger] final(self).render.projectiles@[k];
                        &&& r.id == last[k].id && r.kind == last[k].kind && r.owner == last[k].owner
                        &&& r.pos == last[k].pos && r.yaw == last[k].yaw && r.alt == last[k].alt
                    }
            },
            pair is Some ==> {
                let newer = old(self).snapshots@[pair->0 + 1].snapshot.projectiles@;
                &&& final(self).render.projectiles@.len() == newer.len()
                &&& forall|k: int|
                    0 <= k < newer.len() ==> {
                        let r = #[trigger] final(self).render.projectiles@[k];
                        &&& r.id == newer[k].id && r.kind == newer[k].kind && r.owner == newer[k].owner
                        &&& r.alt == newer[k].alt
                        &&& r.pos == newer[k].pos || r.pos == blend.shells@[k].pos
                    }
            },
            final(self).render.players@.len() == MAX_PLAYERS,
            forall|k: int|
                0 <= k < MAX_PLAYERS && (#[trigger] final(self).render.players@[k]) is Some ==> final(self).render.players@[k]->0.id == k,
            final(self).wf(),
            *final(self) == (GameState { render: final(self).render, ..*old(self) }),
            final(self).render.projectiles@ == old(self).frame_shells(pair, blend),
            final(self).render.players@ == match old(self).local_player {
                Some(local) if old(self).prediction.active => with_prediction(
                    old(self).frame_players(pair, blend),
                    local,
                    old(self).prediction.slot,
                    pose,
                    old(self).prediction.state.speed,
                ),
                _ => old(self).frame_players(pair, blend),
            },
    {
        let mut players: Vec<Option<RenderPlayer>> = Vec::new();
        players.push(None);
        players.push(None);
        players.push(None);
        players.push(None);
        let mut projectiles: Vec<RenderProjectile> = Vec::new();
        assert(players@ =~= Seq::new(MAX_PLAYERS as nat, |i: int| None::<RenderPlayer>));

        let held = self.snapshots.len();
        let from: Option<usize> = match pair {
            Some(i) => Some(i + 1),
            None => if held > 0 {
                Some(held - 1)
            } else {
                None
            },
        };
        if let Some(at) = from {
            let b = &self.snapshots[at].snapshot;
            let ghost older_players = match self.frame_origin(pair) {
                Some(a) => Some(a.players@),
                None => None,
            };
            let ghost older_shells = match self.frame_origin(pair) {
                Some(a) => Some(a.projectiles@),
                None => None,
            };
            let ghost drawn = drawn_players(older_players, b.players@, blend.players@);
            let mut k: usize = 0;
            while k < b.players.len()
                invariant
                    k <= b.players@.len(),
                    held == self.snapshots@.len(),
                    pair is Some ==> pair->0 + 1 < held && blend.players@.len() == b.players@.len(),
                    older_players == match self.frame_origin(pair) {
                        Some(a) => Some(a.players@),
                        None => None,
                    },
                    drawn == drawn_players(older_players, b.players@, blend.players@),
                    players@ == drawn_slots(drawn, k as nat),
                    players@.len() == MAX_PLAYERS,
                decreases b.players.len() - k,
            {
                let p = &b.players[k];
                let r: RenderPlayer = match pair {
                    Some(i) => {
                        let before = find_player(&self.snapshots[i].snapshot.players, p.id);
                        draw_blended(before, p, &blend.players[k])
                    },
                    None => draw_plain(p),
                };
                assert(r == drawn[k as int]);
                if (r.id as usize) < MAX_PLAYERS {
                    players[r.id as usize] = Some(r);
                }
                k = k + 1;
            }
            let mut s: usize = 0;
            while s < b.projectiles.len()
                invariant
                    s <= b.projectiles@.len(),
                    held == self.snapshots@.len(),
                    pair is Some ==> pair->0 + 1 < held && blend.shells@.len()
                        == b.projectiles@.len(),
                    older_shells == match self.frame_origin(pair) {
                        Some(a) => Some(a.projectiles@),
                        None => None,
                    },
                    projectiles@ =~= drawn_shells(
                        older_shells,
                        b.projectiles@,
                        blend.shells@,
                    ).take(s as int),
                decreases b.projectiles.len() - s,
            {
                let p = b.projectiles[s];
                let mut r = RenderProjectile {
                    id: p.id,
                    kind: p.kind,
                    owner: p.owner,
                    pos: p.pos,
                    yaw: p.yaw,
                    alt: p.alt,
                };
                if let Some(i) = pair {
                    // Heading as well as position: a missile turns as it flies.
                    if knows_shell(&self.snapshots[i].snapshot.projectiles, p.id) {
                        r.pos = blend.shells[s].pos;
                        r.yaw = blend.shells[s].yaw;
                    }
                }
                projectiles.push(r);
                s = s + 1;
            }
            assert(drawn_shells(older_shells, b.projectiles@, blend.shells@).take(s as int)
                =~= drawn_shells(older_shells, b.projectiles@, blend.shells@));
        }
        assert(players@ =~= self.frame_players(pair, blend));
        assert(players@.len() == MAX_PLAYERS);
        proof {
            if let Some(b) = self.frame_source(pair) {
                let older = match self.frame_origin(pair) {
                    Some(a) => Some(a.players@),
                    None => None,
                };
                let drawn = drawn_players(older, b.players@, blend.players@);
                assert forall|k: int| 0 <= k < MAX_PLAYERS && (#[trigger] players@[k]) is Some implies players@[k]->0.id
                    == k by {
                    lemma_each_is_drawn_in_their_slot(drawn, b.players@.len(), k);
                }
            }
        }

        // The vehicle under local control comes from prediction, not from the
        // interpolated (and therefore stale) snapshot stream.
        if self.prediction.active {
            if let Some(local) = self.local_player {
                if (local as usize) < players.len() {
                    let slot = self.prediction.slot;
                    let speed = self.prediction.state.speed;
                    if let Some(p) = players[local as usize] {
                        let mut p = p;
                        let seen: Option<RenderVehicle> = match slot {
                            VehicleSlot::Tank => p.tank,
                            VehicleSlot::Miner => p.miner,
                            VehicleSlot::Plane => p.plane,
                        };
                        if let Some(v) = seen {
                            let mut v = v;
                            v.pos = pose.pos;
                            v.yaw = pose.yaw;
                            if slot == VehicleSlot::Plane {
                                v.roll = pose.roll;
                                v.alt = pose.alt;
                                // The bombsight is drawn from these, so they
                                // have to be what prediction is flying.
                                v.speed = speed;
                            }
                            match slot {
                                VehicleSlot::Tank => {
                                    p.tank = Some(v);
                                },
                                VehicleSlot::Miner => {
                                    p.miner = Some(v);
                                },
                                VehicleSlot::Plane => {
                                    p.plane = Some(v);
                                },
                            }
                            players[local as usize] = Some(p);
                        }
                    }
                }
            }
        }
        self.render = RenderWorld { players, projectiles };
    }
}

proof fn lemma_what_waits_is_later(waiting: Seq<Pending>, now: Stamp, n: nat)
    requires
        n <= waiting.len(),
    ensures
        forall|i: int|
            0 <= i < still_pending(waiting, now, n).len() ==> (#[trigger] still_pending(
                waiting,
                now,
                n,
            )[i]).at > now,
        still_pending(waiting, now, n).len() + due_fx(waiting, now, n).len() == n,
    decreases n,
{
    if n > 0 {
        lemma_what_waits_is_later(waiting, now, (n - 1) as nat);
    }
}

proof fn lemma_nothing_due(waiting: Seq<Pending>, now: Stamp, n: nat)
    requires
        n <= waiting.len(),
        forall|i: int| 0 <= i < waiting.len() ==> (#[trigger] waiting[i]).at > now,
    ensures
        due_fx(waiting, now, n).len() == 0,
    decreases n,
{
    if n > 0 {
        lemma_nothing_due(waiting, now, (n - 1) as nat);
    }
}

/// An impact is handed over once: none is left that was due, and each is either
/// handed over or kept.
pub proof fn lemma_an_impact_is_handed_over_once(waiting: Seq<Pending>, now: Stamp)
    ensures
        ({
            let kept = still_pending(waiting, now, waiting.len());
            &&& kept.len() + due_fx(waiting, now, waiting.len()).len() == waiting.len()
            &&& due_fx(kept, now, kept.len()).len() == 0
        }),
{
    lemma_what_waits_is_later(waiting, now, waiting.len());
    let kept = still_pending(waiting, now, waiting.len());
    lemma_nothing_due(kept, now, kept.len());
}

/// No impact is handed over before its moment.
pub proof fn lemma_no_impact_is_early(waiting: Seq<Pending>, now: Stamp)
    requires
        forall|i: int| 0 <= i < waiting.len() ==> (#[trigger] waiting[i]).at > now,
    ensures
        due_fx(waiting, now, waiting.len()).len() == 0,
{
    lemma_nothing_due(waiting, now, waiting.len());
}

/// Prediction moves the vehicle it follows and nothing else that is drawn.
pub proof fn lemma_prediction_moves_one_vehicle(
    players: Seq<Option<RenderPlayer>>,
    local: u8,
    slot: VehicleSlot,
    pose: Pose,
    speed: Real,
    i: int,
    other: VehicleSlot,
)
    requires
        0 <= i < players.len(),
        players[i] is Some,
        i != local || other != slot,
    ensures
        with_prediction(players, local, slot, pose, speed)[i] is Some,
        with_prediction(players, local, slot, pose, speed)[i]->0.vehicle_spec(other)
            == players[i]->0.vehicle_spec(other),
{
}

/// Whether a vehicle is drawn with the gauges a snapshot gives it.
pub open spec fn draws(r: RenderVehicle, v: VehicleSnapshot) -> bool {
    &&& r.pos == v.pos && r.yaw == v.yaw && r.speed == v.speed
    &&& r.turret_yaw == v.turret_yaw
    &&& r.shield == v.shield
    &&& r.hull == v.hull
    &&& r.cargo == v.cargo
    &&& r.disabled == v.disabled
    &&& r.capture_progress == v.capture_progress
}

/// A player is found by their number, the first under it, and not found only
/// when nobody has it.
pub proof fn lemma_a_player_is_found_by_number(players: Seq<PlayerSnapshot>, id: u8, n: nat)
    requires
        n <= players.len(),
    ensures
        match player_with(players, id, n) {
            Some(p) => p.id == id && exists|i: int|
                0 <= i < n && (#[trigger] players[i]) == p && forall|j: int|
                    0 <= j < i ==> (#[trigger] players[j]).id != id,
            None => forall|i: int| 0 <= i < n ==> (#[trigger] players[i]).id != id,
        },
    decreases n,
{
    if n > 0 {
        lemma_a_player_is_found_by_number(players, id, (n - 1) as nat);
        if player_with(players, id, (n - 1) as nat) is None && players[n - 1].id == id {
            assert(players[n - 1] == player_with(players, id, n)->0);
        }
    }
}

/// A player is called what the roster calls them, the first entry under their
/// number, and goes unnamed only when there is none.
pub proof fn lemma_a_name_is_found_by_number(roster: Seq<PlayerInfo>, id: u8, n: nat)
    requires
        n <= roster.len(),
    ensures
        (forall|i: int| 0 <= i < n ==> (#[trigger] roster[i]).id != id) ==> listed_name(
            roster,
            id,
            n,
        ) is None,
        forall|i: int|
            0 <= i < n && (#[trigger] roster[i]).id == id && (forall|j: int|
                0 <= j < i ==> (#[trigger] roster[j]).id != id) ==> listed_name(roster, id, n)
                == Some(roster[i].name@),
    decreases n,
{
    if n > 0 {
        lemma_a_name_is_found_by_number(roster, id, (n - 1) as nat);
    }
}

/// Every player a frame is drawn from is drawn in the slot of their own number,
/// and a slot is empty only when nobody has that number.
pub proof fn lemma_each_is_drawn_in_their_slot(players: Seq<RenderPlayer>, n: nat, k: int)
    requires
        n <= players.len(),
        0 <= k < MAX_PLAYERS,
    ensures
        drawn_slots(players, n).len() == MAX_PLAYERS,
        match drawn_slots(players, n)[k] {
            Some(p) => p.id == k && exists|j: int| 0 <= j < n && (#[trigger] players[j]) == p,
            None => forall|j: int| 0 <= j < n ==> (#[trigger] players[j]).id != k,
        },
    decreases n,
{
    if n > 0 {
        lemma_each_is_drawn_in_their_slot(players, (n - 1) as nat, k);
        if players[n - 1].id == k {
            assert(players[n - 1] == drawn_slots(players, n)[k]->0);
        }
    }
}

/// Each deposit holds what it was last said to hold, and one that nothing was
/// said of holds what it did. None of them moves.
pub proof fn lemma_each_deposit_is_as_last_told(
    ore: Seq<OreDeposit>,
    updates: Seq<OreUpdate>,
    amounts: Seq<Real>,
    n: nat,
)
    requires
        n <= updates.len(),
    ensures
        ore_after(ore, updates, amounts, n).len() == ore.len(),
        forall|k: int|
            0 <= k < ore.len() ==> {
                let (is, was) = (#[trigger] ore_after(ore, updates, amounts, n)[k], ore[k]);
                is.pos == was.pos && is.capacity == was.capacity
            },
        forall|k: int|
            0 <= k < ore.len() && (forall|j: int|
                0 <= j < n ==> (#[trigger] updates[j]).id != k) ==> (#[trigger] ore_after(
                ore,
                updates,
                amounts,
                n,
            )[k]) == ore[k],
        n > 0 && (updates[n - 1].id as int) < ore.len() ==> ore_after(
            ore,
            updates,
            amounts,
            n,
        )[updates[n - 1].id as int].amount == amounts[n - 1],
    decreases n,
{
    if n > 0 {
        let m = (n - 1) as nat;
        lemma_each_deposit_is_as_last_told(ore, updates, amounts, m);
        let (before, all) = (
            ore_after(ore, updates, amounts, m),
            ore_after(ore, updates, amounts, n),
        );
        assert forall|k: int| 0 <= k < ore.len() && (forall|j: int|
            0 <= j < n ==> (#[trigger] updates[j]).id != k) implies (#[trigger] all[k]) == ore[k] by {
            assert(updates[n - 1].id != k);
            assert(before[k] == ore[k]);
        }
        assert forall|k: int| 0 <= k < ore.len() implies {
            let (is, was) = (#[trigger] all[k], ore[k]);
            is.pos == was.pos && is.capacity == was.capacity
        } by {
            assert(before[k].pos == ore[k].pos && before[k].capacity == ore[k].capacity);
        }
    }
}

/// An impact is handed over if its moment has come and kept if it has not.
pub proof fn lemma_an_impact_has_its_moment(waiting: Seq<Pending>, now: Stamp, k: int)
    requires
        0 <= k < waiting.len(),
    ensures
        waiting[k].at <= now ==> due_fx(waiting, now, waiting.len()).contains(waiting[k].fx),
        waiting[k].at > now ==> still_pending(waiting, now, waiting.len()).contains(waiting[k]),
{
    let n = waiting.len();
    let f = |i: int|
        if waiting[i].at <= now {
            seq![waiting[i].fx]
        } else {
            Seq::empty()
        };
    let g = |i: int|
        if waiting[i].at <= now {
            Seq::empty()
        } else {
            seq![waiting[i]]
        };
    if waiting[k].at <= now {
        assert(f(k)[0] == waiting[k].fx);
        crate::measure::lemma_gathered_holds(n, f, k, waiting[k].fx);
    } else {
        assert(g(k)[0] == waiting[k]);
        crate::measure::lemma_gathered_holds(n, g, k, waiting[k]);
    }
}

/// Prediction draws a vehicle where it has it and leaves its gauges alone. Only
/// an aircraft is drawn at a height, banked, or at the speed it is flown.
pub proof fn lemma_prediction_draws_where_it_flies(
    v: RenderVehicle,
    slot: VehicleSlot,
    pose: Pose,
    speed: Real,
)
    ensures
        ({
            let r = predicted_vehicle(v, slot, pose, speed);
            &&& r.pos == pose.pos && r.yaw == pose.yaw
            &&& r.shield == v.shield && r.hull == v.hull && r.cargo == v.cargo
            &&& r.turret_yaw == v.turret_yaw && r.disabled == v.disabled
            &&& r.capture_progress == v.capture_progress
            &&& slot == VehicleSlot::Plane ==> r.roll == pose.roll && r.alt == pose.alt && r.speed
                == speed
            &&& slot != VehicleSlot::Plane ==> r.roll == v.roll && r.alt == v.alt && r.speed
                == v.speed
        }),
{
}

/// A projectile is drawn as it is, slid only where there is an earlier place to
/// slide from, and never in height.
pub proof fn lemma_a_shell_is_drawn_as_it_is(
    older: Option<Seq<ProjectileSnapshot>>,
    shells: Seq<ProjectileSnapshot>,
    blends: Seq<ShellBlend>,
    i: int,
)
    requires
        0 <= i < shells.len(),
    ensures
        ({
            let r = drawn_shells(older, shells, blends)[i];
            let known = older is Some && exists|k: int|
                0 <= k < older->0.len() && (#[trigger] older->0[k]).id == shells[i].id;
            &&& drawn_shells(older, shells, blends).len() == shells.len()
            &&& r.id == shells[i].id && r.kind == shells[i].kind && r.owner == shells[i].owner
            &&& r.alt == shells[i].alt
            &&& !known ==> r.pos == shells[i].pos && r.yaw == shells[i].yaw
            &&& known ==> r.pos == blends[i].pos && r.yaw == blends[i].yaw
        }),
{
}

/// Prediction is anchored on the vehicle it follows, where the snapshot has it,
/// and on nothing when that vehicle is gone.
pub proof fn lemma_prediction_is_anchored_on_its_own(
    me: PlayerSnapshot,
    slot: VehicleSlot,
    acked: u32,
)
    ensures
        match anchor_of(me, slot, acked) {
            Some(a) => {
                &&& a.slot == slot && a.acked == acked && a.powerups == me.powerups
                &&& slot == VehicleSlot::Tank ==> me.tank == Some(a.vehicle)
                &&& slot == VehicleSlot::Miner ==> me.miner == Some(a.vehicle)
                &&& slot == VehicleSlot::Plane ==> me.plane is Some && a.vehicle.pos
                    == me.plane->0.pos && a.vehicle.yaw == me.plane->0.yaw && a.vehicle.speed
                    == me.plane->0.speed && a.vehicle.hull == me.plane->0.hull
                &&& me.plane is Some ==> a.air.roll == me.plane->0.roll && a.air.alt
                    == me.plane->0.alt
                &&& me.plane is None ==> a.air.roll == 0 && a.air.alt == 0
            },
            None => {
                &&& slot == VehicleSlot::Tank ==> me.tank is None
                &&& slot == VehicleSlot::Miner ==> me.miner is None
                &&& slot == VehicleSlot::Plane ==> me.plane is None
            },
        },
{
}

/// Every impact a snapshot tells of is held for the moment it is due.
pub proof fn lemma_impacts_are_held(hits: Seq<HitFx>, at: Stamp, i: int)
    requires
        0 <= i < hits.len(),
    ensures
        pending(hits, at).len() == hits.len(),
        pending(hits, at)[i].fx == hits[i],
        pending(hits, at)[i].at == at,
{
}

/// Whoever is driving is drawn where prediction has them.
pub proof fn lemma_the_driver_sees_their_own_steering(
    players: Seq<Option<RenderPlayer>>,
    local: u8,
    slot: VehicleSlot,
    pose: Pose,
    speed: Real,
)
    requires
        (local as int) < players.len(),
        players[local as int] is Some,
        players[local as int]->0.vehicle_spec(slot) is Some,
    ensures
        ({
            let drawn = with_prediction(players, local, slot, pose, speed)[local as int]->0;
            &&& drawn.vehicle_spec(slot) is Some
            &&& drawn.vehicle_spec(slot)->0.pos == pose.pos
            &&& drawn.vehicle_spec(slot)->0.yaw == pose.yaw
            &&& drawn.credits == players[local as int]->0.credits
        }),
{
}

/// Everybody a snapshot tells of is drawn from the newest of it: their bank, their
/// stock and their upgrades are never the older ones.
pub proof fn lemma_figures_are_the_newest(
    older: Option<Seq<PlayerSnapshot>>,
    players: Seq<PlayerSnapshot>,
    blends: Seq<PlayerBlend>,
    i: int,
)
    requires
        0 <= i < players.len(),
    ensures
        ({
            let (r, p) = (drawn_players(older, players, blends)[i], players[i]);
            &&& drawn_players(older, players, blends).len() == players.len()
            &&& r.id == p.id && r.connected == p.connected && r.eliminated == p.eliminated
            &&& r.credits == p.credits && r.ore_mined == p.ore_mined
            &&& r.powerups == p.powerups && r.missiles == p.missiles && r.captures == p.captures
            &&& r.miner_mode == p.miner_mode && r.respawn_in == p.respawn_in
            &&& r.plane_ready_in == p.plane_ready_in
            &&& r.tank is Some <==> p.tank is Some
            &&& r.miner is Some <==> p.miner is Some
            &&& r.plane is Some <==> p.plane is Some
            &&& r.sentinel is Some <==> p.sentinel is Some
            &&& older is None && p.tank is Some ==> draws(r.tank->0, p.tank->0)
            &&& older is None && p.miner is Some ==> draws(r.miner->0, p.miner->0)
        }),
{
}

/// A new line of the log is shown last, above it what was there before it, and
/// only the oldest goes to make room.
pub proof fn lemma_the_newest_line_is_shown_last(log: Seq<Seq<char>>, line: Seq<char>)
    requires
        log.len() <= LOG_LINES,
    ensures
        shown(log, line).len() <= LOG_LINES,
        shown(log, line).last() == line,
        log.len() < LOG_LINES ==> shown(log, line).drop_last() =~= log,
        log.len() == LOG_LINES ==> shown(log, line).drop_last() =~= log.skip(1),
{
}

} // verus!
