//! What the match is made of, and what is said about it: vehicles, upgrades,
//! events, input frames, and the snapshots a client is shown.

use vstd::prelude::*;

use crate::measure::{Real, Vec2};

verus! {

/// How many can play.
pub const MAX_PLAYERS: usize = 4;

/// How many miners win a match outright.
pub const CAPTURES_TO_WIN: u8 = 3;

/// What a bomber costs. More than everything else on the list put together.
pub const BOMBER_PRICE: u32 = 1000;

/// How many upgrades there are to buy.
pub const POWERUPS: usize = 8;

/// The port a server listens on unless told otherwise.
pub const DEFAULT_PORT: u16 = 45701;

/// How many times a second a match is stepped.
pub const TICK_HZ: u32 = 30;

/// One of the vehicles a player can be driving.
#[derive(Clone, Copy, Debug, PartialEq, Eq, Hash, Structural)]
pub enum VehicleSlot {
    Tank,
    Miner,
    Plane,
}

/// What a vehicle is. One kind per slot.
#[derive(Clone, Copy, Debug, PartialEq, Eq, Structural)]
pub enum VehicleKind {
    Tank,
    Miner,
    Plane,
}

/// Which of a player's vehicles exist right now.
#[derive(Clone, Copy, Debug, PartialEq, Eq, Structural)]
pub struct Fleet {
    pub tank: bool,
    pub miner: bool,
    pub plane: bool,
}

impl Fleet {
    /// Whether the vehicle in `slot` exists.
    pub open spec fn has_spec(self, slot: VehicleSlot) -> bool {
        match slot {
            VehicleSlot::Tank => self.tank,
            VehicleSlot::Miner => self.miner,
            VehicleSlot::Plane => self.plane,
        }
    }

    /// Whether the vehicle in `slot` exists.
    pub fn has(self, slot: VehicleSlot) -> (r: bool)
        ensures
            slot == VehicleSlot::Tank ==> r == self.tank,
            slot == VehicleSlot::Miner ==> r == self.miner,
            slot == VehicleSlot::Plane ==> r == self.plane,
            r == self.has_spec(slot),
    {
        match slot {
            VehicleSlot::Tank => self.tank,
            VehicleSlot::Miner => self.miner,
            VehicleSlot::Plane => self.plane,
        }
    }

    /// Whether there is anything at all to drive.
    pub open spec fn any(self) -> bool {
        self.tank || self.miner || self.plane
    }
}

impl VehicleSlot {
    pub open spec fn kind_spec(self) -> VehicleKind {
        match self {
            VehicleSlot::Tank => VehicleKind::Tank,
            VehicleSlot::Miner => VehicleKind::Miner,
            VehicleSlot::Plane => VehicleKind::Plane,
        }
    }

    /// What sits in this slot.
    pub fn kind(self) -> (r: VehicleKind)
        ensures
            self == VehicleSlot::Tank <==> r == VehicleKind::Tank,
            self == VehicleSlot::Miner <==> r == VehicleKind::Miner,
            self == VehicleSlot::Plane <==> r == VehicleKind::Plane,
            r == self.kind_spec(),
    {
        match self {
            VehicleSlot::Tank => VehicleKind::Tank,
            VehicleSlot::Miner => VehicleKind::Miner,
            VehicleSlot::Plane => VehicleKind::Plane,
        }
    }

    /// The slot after this one: tank, miner, plane, and round again.
    pub open spec fn next_spec(self) -> VehicleSlot {
        match self {
            VehicleSlot::Tank => VehicleSlot::Miner,
            VehicleSlot::Miner => VehicleSlot::Plane,
            VehicleSlot::Plane => VehicleSlot::Tank,
        }
    }

    fn next(self) -> (r: VehicleSlot)
        ensures
            self == VehicleSlot::Tank <==> r == VehicleSlot::Miner,
            self == VehicleSlot::Miner <==> r == VehicleSlot::Plane,
            self == VehicleSlot::Plane <==> r == VehicleSlot::Tank,
            r == self.next_spec(),
    {
        match self {
            VehicleSlot::Tank => VehicleSlot::Miner,
            VehicleSlot::Miner => VehicleSlot::Plane,
            VehicleSlot::Plane => VehicleSlot::Tank,
        }
    }

    /// The first slot past this one that `fleet` has, or this one again when
    /// there is no other.
    pub open spec fn next_available_spec(self, fleet: Fleet) -> VehicleSlot {
        if fleet.has_spec(self.next_spec()) {
            self.next_spec()
        } else if fleet.has_spec(self.next_spec().next_spec()) {
            self.next_spec().next_spec()
        } else {
            self
        }
    }

    /// Moves on to the next vehicle there actually is.
    pub fn next_available(self, fleet: Fleet) -> (r: VehicleSlot)
        ensures
            self == VehicleSlot::Tank && fleet.miner ==> r == VehicleSlot::Miner,
            self == VehicleSlot::Miner && fleet.plane ==> r == VehicleSlot::Plane,
            self == VehicleSlot::Plane && fleet.tank ==> r == VehicleSlot::Tank,
            self == VehicleSlot::Tank && !fleet.miner && fleet.plane ==> r == VehicleSlot::Plane,
            self == VehicleSlot::Miner && !fleet.plane && fleet.tank ==> r == VehicleSlot::Tank,
            self == VehicleSlot::Plane && !fleet.tank && fleet.miner ==> r == VehicleSlot::Miner,
            r == VehicleSlot::Tank ==> r == self || fleet.tank,
            r == VehicleSlot::Miner ==> r == self || fleet.miner,
            r == VehicleSlot::Plane ==> r == self || fleet.plane,
            r == self.next_available_spec(fleet),
    {
        let one = self.next();
        if fleet.has(one) {
            one
        } else {
            let two = one.next();
            if fleet.has(two) {
                two
            } else {
                self
            }
        }
    }

    /// What to drive when asked to drive `self`: that, or the next thing along
    /// if it is not there.
    pub open spec fn or_next_spec(self, fleet: Fleet) -> VehicleSlot {
        if fleet.has_spec(self) {
            self
        } else {
            self.next_available_spec(fleet)
        }
    }

    /// Keeps the player on something they have.
    pub fn or_next(self, fleet: Fleet) -> (r: VehicleSlot)
        ensures
            self == VehicleSlot::Tank && !fleet.tank && fleet.miner ==> r == VehicleSlot::Miner,
            self == VehicleSlot::Tank && !fleet.tank && !fleet.miner && fleet.plane ==> r
                == VehicleSlot::Plane,
            self == VehicleSlot::Miner && !fleet.miner && fleet.plane ==> r == VehicleSlot::Plane,
            self == VehicleSlot::Miner && !fleet.miner && !fleet.plane && fleet.tank ==> r
                == VehicleSlot::Tank,
            self == VehicleSlot::Plane && !fleet.plane && fleet.tank ==> r == VehicleSlot::Tank,
            self == VehicleSlot::Plane && !fleet.plane && !fleet.tank && fleet.miner ==> r
                == VehicleSlot::Miner,
            fleet.has_spec(self) ==> r == self,
            fleet.tank || fleet.miner || fleet.plane ==> match r {
                VehicleSlot::Tank => fleet.tank,
                VehicleSlot::Miner => fleet.miner,
                VehicleSlot::Plane => fleet.plane,
            },
            !fleet.tank && !fleet.miner && !fleet.plane ==> r == self,
            r == self.or_next_spec(fleet),
            fleet.any() ==> fleet.has_spec(r),
    {
        if fleet.has(self) {
            self
        } else {
            self.next_available(fleet)
        }
    }
}

impl Default for VehicleSlot {
    fn default() -> (r: Self)
        ensures
            r == VehicleSlot::Tank,
    {
        VehicleSlot::Tank
    }
}

impl VehicleKind {
    pub open spec fn flies_spec(self) -> bool {
        self == VehicleKind::Plane
    }

    /// Whether it leaves the ground.
    pub fn flies(self) -> (r: bool)
        ensures
            r <==> self == VehicleKind::Plane,
            r == self.flies_spec(),
    {
        match self {
            VehicleKind::Plane => true,
            _ => false,
        }
    }
}

/// What a miner does while its player drives something else.
#[derive(Clone, Copy, Debug, PartialEq, Eq, Structural)]
pub enum MinerMode {
    Auto,
    Home,
    Stop,
}

impl Default for MinerMode {
    fn default() -> (r: Self)
        ensures
            r == MinerMode::Auto,
    {
        MinerMode::Auto
    }
}

#[derive(Clone, Copy, Debug, PartialEq, Eq, Structural)]
pub enum GameStatus {
    Waiting,
    Running,
    Finished,
}

/// Why a player was not let in.
#[derive(Clone, Copy, Debug, PartialEq, Eq, Structural)]
pub enum DenyReason {
    ServerFull,
    MatchFinished,
    NameTaken,
}

/// Why a purchase was declined.
#[derive(Clone, Copy, Debug, PartialEq, Eq, Structural)]
pub enum RejectReason {
    Eliminated,
    AlreadyOwned,
    NotEnoughCredits,
}

/// Everything on the build list, in the order it is listed.
#[derive(Clone, Copy, Debug, PartialEq, Eq, Structural)]
pub enum PowerUp {
    Radar,
    ShieldBooster,
    Turbo,
    MinerArmor,
    AutoTurret,
    LongBarrel,
    MissilePack,
    Bomber,
}

impl PowerUp {
    /// The place on the build list, counted from zero.
    pub open spec fn index_spec(self) -> int {
        match self {
            PowerUp::Radar => 0,
            PowerUp::ShieldBooster => 1,
            PowerUp::Turbo => 2,
            PowerUp::MinerArmor => 3,
            PowerUp::AutoTurret => 4,
            PowerUp::LongBarrel => 5,
            PowerUp::MissilePack => 6,
            PowerUp::Bomber => 7,
        }
    }

    pub fn index(self) -> (r: usize)
        ensures
            r == self.index_spec(),
            r < POWERUPS,
    {
        match self {
            PowerUp::Radar => 0,
            PowerUp::ShieldBooster => 1,
            PowerUp::Turbo => 2,
            PowerUp::MinerArmor => 3,
            PowerUp::AutoTurret => 4,
            PowerUp::LongBarrel => 5,
            PowerUp::MissilePack => 6,
            PowerUp::Bomber => 7,
        }
    }

    /// The upgrade listed at `i`.
    pub fn listed(i: usize) -> (r: Option<PowerUp>)
        ensures
            r == Some(PowerUp::Radar) <==> i == 0,
            r == Some(PowerUp::ShieldBooster) <==> i == 1,
            r == Some(PowerUp::Turbo) <==> i == 2,
            r == Some(PowerUp::MinerArmor) <==> i == 3,
            r == Some(PowerUp::AutoTurret) <==> i == 4,
            r == Some(PowerUp::LongBarrel) <==> i == 5,
            r == Some(PowerUp::MissilePack) <==> i == 6,
            r == Some(PowerUp::Bomber) <==> i == 7,
            match r {
                Some(p) => p.index_spec() == i,
                None => i >= POWERUPS,
            },
    {
        if i == 0 {
            Some(PowerUp::Radar)
        } else if i == 1 {
            Some(PowerUp::ShieldBooster)
        } else if i == 2 {
            Some(PowerUp::Turbo)
        } else if i == 3 {
            Some(PowerUp::MinerArmor)
        } else if i == 4 {
            Some(PowerUp::AutoTurret)
        } else if i == 5 {
            Some(PowerUp::LongBarrel)
        } else if i == 6 {
            Some(PowerUp::MissilePack)
        } else if i == 7 {
            Some(PowerUp::Bomber)
        } else {
            None
        }
    }

    pub open spec fn bit_spec(self) -> u16 {
        match self {
            PowerUp::Radar => 1,
            PowerUp::ShieldBooster => 2,
            PowerUp::Turbo => 4,
            PowerUp::MinerArmor => 8,
            PowerUp::AutoTurret => 16,
            PowerUp::LongBarrel => 32,
            PowerUp::MissilePack => 64,
            PowerUp::Bomber => 128,
        }
    }

    /// The upgrade's place in a mask of upgrades.
    pub fn bit(self) -> (r: u16)
        ensures
            self == PowerUp::Radar <==> r == 1,
            self == PowerUp::ShieldBooster <==> r == 2,
            self == PowerUp::Turbo <==> r == 4,
            self == PowerUp::MinerArmor <==> r == 8,
            self == PowerUp::AutoTurret <==> r == 16,
            self == PowerUp::LongBarrel <==> r == 32,
            self == PowerUp::MissilePack <==> r == 64,
            self == PowerUp::Bomber <==> r == 128,
            r == self.bit_spec(),
    {
        match self {
            PowerUp::Radar => 1,
            PowerUp::ShieldBooster => 2,
            PowerUp::Turbo => 4,
            PowerUp::MinerArmor => 8,
            PowerUp::AutoTurret => 16,
            PowerUp::LongBarrel => 32,
            PowerUp::MissilePack => 64,
            PowerUp::Bomber => 128,
        }
    }

    pub open spec fn held_spec(self, mask: u16) -> bool {
        mask & self.bit_spec() != 0
    }

    /// Whether a mask of upgrades has this one in it.
    pub fn held(self, mask: u16) -> (r: bool)
        ensures
            r == self.held_spec(mask),
    {
        mask & self.bit() != 0
    }

    pub open spec fn is_consumable_spec(self) -> bool {
        self == PowerUp::MissilePack
    }

    /// Whether it is used up rather than owned, and so can be bought again.
    pub fn is_consumable(self) -> (r: bool)
        ensures
            r <==> self == PowerUp::MissilePack,
            r == self.is_consumable_spec(),
    {
        match self {
            PowerUp::MissilePack => true,
            _ => false,
        }
    }
}

/// Adding an upgrade to a mask makes it held, and leaves every other one as it
/// was.
pub proof fn lemma_held_after_buying(mask: u16, bought: PowerUp, other: PowerUp)
    ensures
        bought.held_spec(mask | bought.bit_spec()),
        other != bought ==> other.held_spec(mask | bought.bit_spec()) == other.held_spec(mask),
{
    let b = bought.bit_spec();
    let o = other.bit_spec();
    assert(b == 1 || b == 2 || b == 4 || b == 8 || b == 16 || b == 32 || b == 64 || b == 128);
    assert(o == 1 || o == 2 || o == 4 || o == 8 || o == 16 || o == 32 || o == 64 || o == 128);
    assert((mask | b) & b != 0) by (bit_vector)
        requires
            b != 0,
    ;
    if other != bought {
        assert(((mask | b) & o != 0) == (mask & o != 0)) by (bit_vector)
            requires
                b == 1 || b == 2 || b == 4 || b == 8 || b == 16 || b == 32 || b == 64 || b == 128,
                o == 1 || o == 2 || o == 4 || o == 8 || o == 16 || o == 32 || o == 64 || o == 128,
                o != b,
        ;
    }
}

/// Something that happened in the match, told to everybody in it.
#[derive(Clone, Copy, Debug, PartialEq, Eq, Structural)]
pub enum GameEvent {
    PlayerJoined { player: u8 },
    PlayerLeft { player: u8 },
    MatchStarted,
    PurchaseAccepted { powerup: PowerUp, credits: u32 },
    PurchaseRejected { powerup: PowerUp, reason: RejectReason },
    TankDestroyed { player: u8, by: u8 },
    TankRespawned { player: u8 },
    MinerDisabled { player: u8 },
    MinerRescued { player: u8 },
    MinerCaptured { by: u8, from: u8 },
    OreSeized { by: u8, from: u8, amount: u32 },
    SentinelDestroyed { player: u8 },
    SentinelRebuilt { player: u8 },
    PlayerEliminated { player: u8 },
    PlayerReturned { player: u8 },
    GameOver { winner: u8 },
    MatchReset { world_seed: u64, by: u8 },
}

#[derive(Clone, Copy, Debug, PartialEq, Eq, Structural)]
pub enum HitKind {
    Blast,
    Shield,
}

/// An impact to be drawn.
#[derive(Clone, Copy, Debug, PartialEq, Eq)]
pub struct HitFx {
    pub kind: HitKind,
    pub pos: Vec2,
    pub angle: Real,
    /// The vehicle it landed on, for a flash that has to follow one.
    pub struck: Option<(u8, VehicleSlot)>,
}

impl HitFx {
    pub open spec fn on_terrain_spec(kind: HitKind, pos: Vec2) -> HitFx {
        HitFx { kind, pos, angle: 0, struck: None }
    }

    /// An impact that belongs to a place.
    pub fn on_terrain(kind: HitKind, pos: Vec2) -> (r: HitFx)
        ensures
            r.kind == kind,
            r.pos == pos,
            r.struck is None,
            r == HitFx::on_terrain_spec(kind, pos),
    {
        HitFx { kind, pos, angle: 0, struck: None }
    }

    pub open spec fn on_vehicle_spec(
        kind: HitKind,
        pos: Vec2,
        angle: Real,
        player: u8,
        slot: VehicleSlot,
    ) -> HitFx {
        HitFx { kind, pos, angle, struck: Some((player, slot)) }
    }

    /// An impact that belongs to a vehicle.
    pub fn on_vehicle(kind: HitKind, pos: Vec2, angle: Real, player: u8, slot: VehicleSlot) -> (r:
        HitFx)
        ensures
            r.kind == kind,
            r.pos == pos,
            r.angle == angle,
            r.struck == Some((player, slot)),
            r == HitFx::on_vehicle_spec(kind, pos, angle, player, slot),
    {
        HitFx { kind, pos, angle, struck: Some((player, slot)) }
    }

    /// The vehicle it landed on, if it landed on one.
    pub fn target(&self) -> (r: Option<(u8, VehicleSlot)>)
        ensures
            r == self.struck,
    {
        self.struck
    }
}

/// What flies. A cannon round is the one thing fired from the air at the air.
#[derive(Clone, Copy, Debug, PartialEq, Eq, Structural)]
pub enum ProjectileKind {
    Bullet,
    Missile,
    Bomb,
    Cannon,
}

/// One tick of a player's controls.
#[derive(Clone, Copy, Debug, PartialEq, Eq, Structural)]
pub struct InputFrame {
    pub tick: u32,
    pub controlling: VehicleSlot,
    pub throttle: Real,
    pub steer: Real,
    pub climb: Real,
    pub aim: Real,
    pub fire_primary: bool,
    pub fire_secondary: bool,
}

impl InputFrame {
    /// Hands off everything.
    pub open spec fn neutral() -> InputFrame {
        InputFrame {
            tick: 0,
            controlling: VehicleSlot::Tank,
            throttle: 0,
            steer: 0,
            climb: 0,
            aim: 0,
            fire_primary: false,
            fire_secondary: false,
        }
    }
}

impl Default for InputFrame {
    fn default() -> (r: Self)
        ensures
            r == InputFrame::neutral(),
            r.tick == 0,
            r.controlling == VehicleSlot::Tank,
            r.throttle == 0 && r.steer == 0 && r.climb == 0 && r.aim == 0,
            !r.fire_primary && !r.fire_secondary,
    {
        InputFrame {
            tick: 0,
            controlling: VehicleSlot::Tank,
            throttle: 0,
            steer: 0,
            climb: 0,
            aim: 0,
            fire_primary: false,
            fire_secondary: false,
        }
    }
}

/// A player as the roster lists them.
#[derive(Clone, Debug)]
pub struct PlayerInfo {
    pub id: u8,
    pub name: String,
    pub connected: bool,
}

#[derive(Clone, Copy, Debug, PartialEq, Eq, Structural)]
pub struct VehicleSnapshot {
    pub pos: Vec2,
    pub yaw: Real,
    pub turret_yaw: Real,
    pub speed: Real,
    pub shield: Real,
    pub hull: Real,
    pub cargo: Real,
    pub disabled: bool,
    pub capture_progress: Real,
}

/// A sortie in the air. `fuel` is what is left, as a fraction of a full tank.
#[derive(Clone, Copy, Debug, PartialEq, Eq, Structural)]
pub struct PlaneSnapshot {
    pub pos: Vec2,
    pub yaw: Real,
    pub roll: Real,
    pub speed: Real,
    pub fuel: Real,
    pub alt: Real,
    pub shield: Real,
    pub hull: Real,
}

#[derive(Clone, Copy, Debug, PartialEq, Eq, Structural)]
pub struct SentinelSnapshot {
    pub hull: Real,
    pub turret_yaw: Real,
}

#[derive(Clone, Copy, Debug, PartialEq, Eq, Structural)]
pub struct PlayerSnapshot {
    pub id: u8,
    pub connected: bool,
    pub eliminated: bool,
    pub credits: u32,
    pub ore_mined: u32,
    pub powerups: u16,
    pub missiles: u8,
    pub captures: u8,
    pub miner_mode: MinerMode,
    pub plane: Option<PlaneSnapshot>,
    /// Whole seconds until another sortie can be called.
    pub plane_ready_in: u8,
    /// Whole seconds until a captured player is back.
    pub respawn_in: u8,
    pub tank: Option<VehicleSnapshot>,
    pub miner: Option<VehicleSnapshot>,
    /// Absent while the emplacement is rubble.
    pub sentinel: Option<SentinelSnapshot>,
}

#[derive(Clone, Copy, Debug, PartialEq, Eq, Structural)]
pub struct ProjectileSnapshot {
    pub id: u16,
    pub kind: ProjectileKind,
    pub owner: u8,
    pub pos: Vec2,
    pub yaw: Real,
    pub alt: Real,
}

/// What is left in one deposit, in whole units.
#[derive(Clone, Copy, Debug, PartialEq, Eq, Structural)]
pub struct OreUpdate {
    pub id: u16,
    pub amount: u16,
}

/// The view of the match sent to one player.
#[derive(Clone, Debug)]
pub struct Snapshot {
    pub tick: u32,
    pub status: GameStatus,
    pub winner: Option<u8>,
    pub acked_input: u32,
    pub players: Vec<PlayerSnapshot>,
    pub projectiles: Vec<ProjectileSnapshot>,
    pub cheats: bool,
    pub ore_is_full_sync: bool,
    pub ore: Vec<OreUpdate>,
    pub hits: Vec<HitFx>,
}

/// Every upgrade has a place of its own on the list and a bit of its own in a
/// mask, so no two can be taken for one another.
pub proof fn lemma_upgrades_are_apart(a: PowerUp, b: PowerUp)
    ensures
        0 <= a.index_spec() < POWERUPS,
        a.index_spec() == b.index_spec() <==> a == b,
        a.bit_spec() == b.bit_spec() <==> a == b,
        a.bit_spec() != 0,
        a.held_spec(b.bit_spec()) <==> a == b,
        !a.held_spec(0),
{
    let x = a.bit_spec();
    let y = b.bit_spec();
    assert(x == 1 || x == 2 || x == 4 || x == 8 || x == 16 || x == 32 || x == 64 || x == 128);
    assert(y == 1 || y == 2 || y == 4 || y == 8 || y == 16 || y == 32 || y == 64 || y == 128);
    assert((y & x != 0) == (x == y)) by (bit_vector)
        requires
            x == 1 || x == 2 || x == 4 || x == 8 || x == 16 || x == 32 || x == 64 || x == 128,
            y == 1 || y == 2 || y == 4 || y == 8 || y == 16 || y == 32 || y == 64 || y == 128,
    ;
    assert(0u16 & x == 0) by (bit_vector);
}

/// Going through everything a player has comes round to where it began, and on
/// the way passes every vehicle once.
pub proof fn lemma_cycling_comes_round(s: VehicleSlot, fleet: Fleet)
    requires
        fleet.tank && fleet.miner && fleet.plane,
    ensures
        ({
            let one = s.next_available_spec(fleet);
            let two = one.next_available_spec(fleet);
            &&& one != s && two != s && one != two
            &&& two.next_available_spec(fleet) == s
        }),
{
}

} // verus!
