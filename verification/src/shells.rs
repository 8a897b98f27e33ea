//! What is in flight: where it goes, what stops it, and what a bomb does.

use vstd::prelude::*;

use crate::combat::{
    air_targets, ground_targets, lemma_air_targets_are_aircraft,
    lemma_ground_targets_hold_no_aircraft, Hit, Hittable, Target,
};
use crate::game::{Game, OreDeposit, Projectile};
use crate::measure::{
    first_least, gathered, is_first_least, least_of, lemma_gathered_from, lemma_gathered_holds,
    lemma_least, listed_if, same_index, Real, Vec2,
};
use crate::player::Player;
use crate::protocol::{HitFx, HitKind, ProjectileKind, VehicleSlot};
use crate::rules::{Rules, SEEK_MINIMUM};

verus! {

broadcast use vstd::std_specs::hash::group_hash_axioms;

/// One target as a missile's seeker sees it.
#[derive(Clone, Copy, Debug, PartialEq, Eq, Structural)]
pub struct Sighting {
    pub distance: Real,
    /// How far off the nose it is, either way.
    pub off_nose: Real,
}

/// How a projectile meets one target.
#[derive(Clone, Copy, Debug, PartialEq, Eq, Structural)]
pub struct Meeting {
    /// How far along this tick's flight it passes through the target, seen from
    /// above, if it does.
    pub at: Option<Real>,
    /// How far apart the two are in height. Only looked at where the target is
    /// in the air: everything else is met on the ground.
    pub height_gap: Real,
    /// Where that is.
    pub impact: Vec2,
    /// The bearing from the hull's centre out to there, which is the face the
    /// shield has to flash on.
    pub bearing: Real,
}

/// One projectile's tick, as flown.
#[derive(Debug)]
pub struct Flight {
    /// What is left of its life once the tick is off it.
    pub life: Real,
    /// A missile's heading and speed once it has turned and burned. What it
    /// burns past its top speed is lost.
    pub yaw: Real,
    pub speed: Real,
    /// Where the tick ends if nothing stops it.
    pub to: Vec2,
    /// One for each thing it could run into: the aircraft for a cannon round,
    /// what stands on the ground for everything else.
    pub meetings: Vec<Meeting>,
    /// How far along it runs into a hill, if it does, and where that is.
    pub hill: Option<Real>,
    pub slope: Vec2,
}

/// What a tick does to a projectile.
#[derive(Clone, Copy, Debug, PartialEq, Eq, Structural)]
pub enum Fate {
    /// A bomb's life is its fall: the end of it is the ground.
    Landed,
    /// For everything else running out of life is falling short.
    Spent,
    /// A hill in front of the target ate the shot.
    Covered,
    Struck(usize),
    /// Off the edge of the field.
    Left,
    Flying,
}

/// A bomb that has reached the ground.
#[derive(Clone, Copy, Debug, PartialEq, Eq, Structural)]
pub struct Blast {
    pub owner: u8,
    pub at: Vec2,
}

/// What a blast does to one target.
#[derive(Clone, Copy, Debug, PartialEq, Eq, Structural)]
pub struct Felt {
    pub damage: Real,
    /// The bearing from the hull out to the blast, so a shield flashes on the
    /// side the bomb went off.
    pub bearing: Real,
}

/// What a tick of flight leaves to be settled.
#[derive(Debug)]
pub struct Landed {
    pub hits: Vec<Hit>,
    pub blasts: Vec<Blast>,
}

/// Each target a seeker could lock, by how far off it is: somebody else's,
/// inside the range, and inside the forward cone, so that a missile can be
/// broken off by getting out of its arc.
pub open spec fn lock_keys(
    rules: &Rules,
    owner: u8,
    targets: Seq<Target>,
    sightings: Seq<Sighting>,
) -> Seq<Option<Real>> {
    Seq::new(
        targets.len(),
        |k: int|
            if targets[k].player != owner && sightings[k].distance <= rules.missile_seek_range
                && sightings[k].distance >= SEEK_MINIMUM && sightings[k].off_nose
                <= rules.missile_seek_cone {
                Some(sightings[k].distance)
            } else {
                None
            },
    )
}

/// The target a missile turns toward: the nearest it can lock.
pub fn seek(
    rules: &Rules,
    owner: u8,
    targets: &Vec<Target>,
    sightings: &Vec<Sighting>,
) -> (r: Option<usize>)
    requires
        sightings@.len() == targets@.len(),
    ensures
        same_index(r, least_of(lock_keys(rules, owner, targets@, sightings@))),
        match r {
            Some(j) => {
                &&& j < targets@.len()
                &&& targets@[j as int].player != owner
                &&& SEEK_MINIMUM <= sightings@[j as int].distance <= rules.missile_seek_range
                &&& sightings@[j as int].off_nose <= rules.missile_seek_cone
                &&& forall|k: int|
                    0 <= k < targets@.len() && (#[trigger] targets@[k]).player != owner
                        && SEEK_MINIMUM <= sightings@[k].distance <= rules.missile_seek_range
                        && sightings@[k].off_nose <= rules.missile_seek_cone
                        ==> sightings@[j as int].distance <= sightings@[k].distance
            },
            None => forall|k: int|
                0 <= k < targets@.len() ==> (#[trigger] targets@[k]).player == owner
                    || sightings@[k].distance < SEEK_MINIMUM || sightings@[k].distance
                    > rules.missile_seek_range || sightings@[k].off_nose
                    > rules.missile_seek_cone,
        },
        r is Some ==> r->0 < targets@.len() && targets@[r->0 as int].player != owner,
{
    let mut keys: Vec<Option<Real>> = Vec::new();
    let mut k: usize = 0;
    while k < targets.len()
        invariant
            k <= targets@.len(),
            sightings@.len() == targets@.len(),
            keys@ =~= lock_keys(rules, owner, targets@, sightings@).take(k as int),
        decreases targets.len() - k,
    {
        let s = sightings[k];
        if targets[k].player != owner && s.distance <= rules.missile_seek_range && s.distance
            >= SEEK_MINIMUM && s.off_nose <= rules.missile_seek_cone {
            keys.push(Some(s.distance));
        } else {
            keys.push(None);
        }
        k = k + 1;
    }
    assert(keys@ =~= lock_keys(rules, owner, targets@, sightings@));
    proof {
        lemma_a_missile_locks_the_nearest(rules, owner, targets@, sightings@);
    }
    first_least(&keys)
}

/// The speed a missile is left with: what it has burned up to, and never more
/// than it can do.
pub open spec fn burned(rules: &Rules, speed: Real) -> Real {
    if speed > rules.missile_max_speed {
        rules.missile_max_speed
    } else {
        speed
    }
}

/// Holds a missile to its top speed.
pub fn burn(rules: &Rules, speed: Real) -> (r: Real)
    ensures
        r <= speed && r <= rules.missile_max_speed,
        r == speed || r == rules.missile_max_speed,
        r == burned(rules, speed),
{
    if speed > rules.missile_max_speed {
        rules.missile_max_speed
    } else {
        speed
    }
}

/// Whether a projectile passes a target at its height. A round flies level, so
/// an aircraft above it or below it is passed by.
pub open spec fn level(rules: &Rules, target: Target, meeting: Meeting) -> bool {
    target.what == Hittable::Vehicle(VehicleSlot::Plane) ==> meeting.height_gap
        <= rules.same_height
}

/// Each target a projectile runs into, by how far along: somebody else's only,
/// since nothing fired ever hits its owner, and at its own height.
pub open spec fn contact_keys(
    rules: &Rules,
    owner: u8,
    targets: Seq<Target>,
    meetings: Seq<Meeting>,
) -> Seq<Option<Real>> {
    Seq::new(
        targets.len(),
        |k: int|
            if targets[k].player != owner && level(rules, targets[k], meetings[k]) {
                meetings[k].at
            } else {
                None
            },
    )
}

fn first_contact(
    rules: &Rules,
    owner: u8,
    targets: &Vec<Target>,
    meetings: &Vec<Meeting>,
) -> (r: Option<usize>)
    requires
        meetings@.len() == targets@.len(),
    ensures
        match r {
            Some(i) => {
                &&& i < targets@.len()
                &&& targets@[i as int].player != owner
                &&& meetings@[i as int].at is Some
                &&& targets@[i as int].what == Hittable::Vehicle(VehicleSlot::Plane)
                    ==> meetings@[i as int].height_gap <= rules.same_height
                &&& forall|k: int|
                    0 <= k < targets@.len() && (#[trigger] targets@[k]).player != owner
                        && meetings@[k].at is Some && (targets@[k].what != Hittable::Vehicle(
                        VehicleSlot::Plane,
                    ) || meetings@[k].height_gap <= rules.same_height) ==> meetings@[i as int].at->0
                        <= meetings@[k].at->0
            },
            None => forall|k: int|
                0 <= k < targets@.len() ==> (#[trigger] targets@[k]).player == owner
                    || meetings@[k].at is None || (targets@[k].what == Hittable::Vehicle(
                    VehicleSlot::Plane,
                ) && meetings@[k].height_gap > rules.same_height),
        },
        same_index(r, least_of(contact_keys(rules, owner, targets@, meetings@))),
        r is Some ==> r->0 < targets@.len() && targets@[r->0 as int].player != owner
            && meetings@[r->0 as int].at is Some,
{
    let mut keys: Vec<Option<Real>> = Vec::new();
    let mut k: usize = 0;
    while k < targets.len()
        invariant
            k <= targets@.len(),
            meetings@.len() == targets@.len(),
            keys@ =~= contact_keys(rules, owner, targets@, meetings@).take(k as int),
        decreases targets.len() - k,
    {
        let abreast = match targets[k].what {
            Hittable::Vehicle(VehicleSlot::Plane) => meetings[k].height_gap <= rules.same_height,
            _ => true,
        };
        if targets[k].player != owner && abreast {
            keys.push(meetings[k].at);
        } else {
            keys.push(None);
        }
        k = k + 1;
    }
    assert(keys@ =~= contact_keys(rules, owner, targets@, meetings@));
    proof {
        lemma_the_first_thing_in_the_way_is_met(rules, owner, targets@, meetings@);
    }
    first_least(&keys)
}

/// Whether a place is on the field.
pub open spec fn on_field(rules: &Rules, at: Vec2) -> bool {
    0 < at.x < rules.world_size && 0 < at.y < rules.world_size
}

/// Whether a hill stops a flight before the first thing it would run into. A
/// cannon round is above them.
pub open spec fn hill_first(
    kind: ProjectileKind,
    hill: Option<Real>,
    meetings: Seq<Meeting>,
    first: Option<int>,
) -> bool {
    kind != ProjectileKind::Cannon && match hill {
        Some(terrain) => match first {
            Some(k) => terrain < meetings[k].at->0,
            None => true,
        },
        None => false,
    }
}

/// What a tick does to a projectile.
///
/// The test against what it could run into is swept: a projectile covers
/// several units per tick, so a point test at each end would let glancing shots
/// pass through. Terrain is compared on the same scale, so whichever is
/// actually nearer is what stops it. A bomb still in the air has nothing to run
/// into.
pub open spec fn fate_of(rules: &Rules, targets: Seq<Target>, p: Projectile, f: &Flight) -> Fate {
    let first = least_of(contact_keys(rules, p.owner, targets, f.meetings@));
    if f.life <= 0 {
        if p.kind == ProjectileKind::Bomb {
            Fate::Landed
        } else {
            Fate::Spent
        }
    } else if p.kind == ProjectileKind::Bomb {
        Fate::Flying
    } else if hill_first(p.kind, f.hill, f.meetings@, first) {
        Fate::Covered
    } else if first is Some {
        Fate::Struck(first->0 as usize)
    } else if on_field(rules, f.to) {
        Fate::Flying
    } else {
        Fate::Left
    }
}

/// Decides what a tick does to a projectile.
pub fn fate(rules: &Rules, targets: &Vec<Target>, p: &Projectile, f: &Flight) -> (r: Fate)
    requires
        f.meetings@.len() == targets@.len(),
    ensures
        f.life <= 0 && p.kind == ProjectileKind::Bomb <==> r == Fate::Landed,
        f.life <= 0 && p.kind != ProjectileKind::Bomb <==> r == Fate::Spent,
        f.life > 0 && p.kind == ProjectileKind::Bomb ==> r == Fate::Flying,
        r is Struck ==> {
            let k = r->Struck_0 as int;
            &&& f.meetings@[k].at is Some
            &&& p.kind != ProjectileKind::Cannon && f.hill is Some ==> f.meetings@[k].at->0
                <= f.hill->0
            &&& forall|j: int|
                0 <= j < targets@.len() && (#[trigger] targets@[j]).player != p.owner
                    && f.meetings@[j].at is Some && (targets@[j].what != Hittable::Vehicle(
                    VehicleSlot::Plane,
                ) || f.meetings@[j].height_gap <= rules.same_height) ==> f.meetings@[k].at->0
                    <= f.meetings@[j].at->0
        },
        r == Fate::Covered ==> p.kind != ProjectileKind::Cannon && f.hill is Some && forall|j: int|
            0 <= j < targets@.len() && (#[trigger] targets@[j]).player != p.owner
                && f.meetings@[j].at is Some && (targets@[j].what != Hittable::Vehicle(
                VehicleSlot::Plane,
            ) || f.meetings@[j].height_gap <= rules.same_height) ==> f.hill->0 < f.meetings@[j].at->0,
        (r == Fate::Flying || r == Fate::Left) && p.kind != ProjectileKind::Bomb ==> {
            &&& p.kind != ProjectileKind::Cannon ==> f.hill is None
            &&& forall|j: int|
                0 <= j < targets@.len() ==> (#[trigger] targets@[j]).player == p.owner
                    || f.meetings@[j].at is None || (targets@[j].what == Hittable::Vehicle(
                    VehicleSlot::Plane,
                ) && f.meetings@[j].height_gap > rules.same_height)
            &&& r == Fate::Flying <==> 0 < f.to.x < rules.world_size && 0 < f.to.y < rules.world_size
        },
        r == fate_of(rules, targets@, *p, f),
        r is Struck ==> r->Struck_0 < targets@.len() && targets@[r->Struck_0 as int].player
            != p.owner,
{
    if f.life <= 0 {
        return if p.kind == ProjectileKind::Bomb {
            Fate::Landed
        } else {
            Fate::Spent
        };
    }
    if p.kind == ProjectileKind::Bomb {
        return Fate::Flying;
    }
    let first = first_contact(rules, p.owner, targets, &f.meetings);
    if p.kind != ProjectileKind::Cannon {
        if let Some(terrain) = f.hill {
            match first {
                Some(k) => {
                    if let Some(best) = f.meetings[k].at {
                        if terrain < best {
                            return Fate::Covered;
                        }
                    }
                },
                None => {
                    return Fate::Covered;
                },
            }
        }
    }
    if let Some(k) = first {
        return Fate::Struck(k);
    }
    if f.to.x > 0 && f.to.x < rules.world_size && f.to.y > 0 && f.to.y < rules.world_size {
        Fate::Flying
    } else {
        Fate::Left
    }
}

/// What one of these takes off whatever it hits. A bomb never hits anything in
/// its way: what it does is done where it lands, to everything within a radius.
pub open spec fn punch(rules: &Rules, kind: ProjectileKind) -> Real {
    match kind {
        ProjectileKind::Bullet => rules.bullet_damage,
        ProjectileKind::Missile => rules.missile_damage,
        ProjectileKind::Cannon => rules.cannon_damage,
        ProjectileKind::Bomb => 0,
    }
}

/// A projectile at the end of a tick it survived. Only a missile turns and
/// burns; a bomb holds the velocity the aircraft let it go with.
pub open spec fn flown(rules: &Rules, p: Projectile, f: &Flight) -> Projectile {
    if p.kind == ProjectileKind::Missile {
        Projectile { life: f.life, pos: f.to, yaw: f.yaw, speed: burned(rules, f.speed), ..p }
    } else {
        Projectile { life: f.life, pos: f.to, ..p }
    }
}

/// What a projectile could run into: the aircraft for a cannon round, what
/// stands on the ground for everything else.
pub open spec fn in_the_way(
    kind: ProjectileKind,
    ground: Seq<Target>,
    air: Seq<Target>,
) -> Seq<Target> {
    if kind == ProjectileKind::Cannon {
        air
    } else {
        ground
    }
}

/// One tick of flight: the field it happens over and the projectiles flying.
pub struct Volley {
    pub rules: Rules,
    pub ground: Seq<Target>,
    pub air: Seq<Target>,
    pub shells: Seq<Projectile>,
    pub flights: Seq<Flight>,
}

impl Volley {
    pub open spec fn targets(self, i: int) -> Seq<Target> {
        in_the_way(self.shells[i].kind, self.ground, self.air)
    }

    pub open spec fn fate(self, i: int) -> Fate {
        fate_of(&self.rules, self.targets(i), self.shells[i], &self.flights[i])
    }

    /// What is still in flight.
    pub open spec fn kept(self, n: nat) -> Seq<Projectile> {
        gathered(
            n,
            |i: int|
                listed_if(
                    self.fate(i) == Fate::Flying,
                    flown(&self.rules, self.shells[i], &self.flights[i]),
                ),
        )
    }

    /// Which ones those are, in the order they were fired.
    pub open spec fn survivors(self, n: nat) -> Seq<int> {
        gathered(n, |i: int| listed_if(self.fate(i) == Fate::Flying, i))
    }

    pub open spec fn hit(self, i: int) -> Hit {
        let k = self.fate(i)->Struck_0 as int;
        Hit {
            player: self.targets(i)[k].player,
            what: self.targets(i)[k].what,
            damage: punch(&self.rules, self.shells[i].kind),
            attacker: self.shells[i].owner,
            bearing: self.flights[i].meetings@[k].bearing,
        }
    }

    /// What was hit, in the order it was fired.
    pub open spec fn hits(self, n: nat) -> Seq<Hit> {
        gathered(n, |i: int| listed_if(self.fate(i) is Struck, self.hit(i)))
    }

    /// The bombs that reached the ground.
    pub open spec fn blasts(self, n: nat) -> Seq<Blast> {
        gathered(
            n,
            |i: int|
                listed_if(
                    self.fate(i) == Fate::Landed,
                    Blast { owner: self.shells[i].owner, at: self.shells[i].pos },
                ),
        )
    }

    /// Missiles go off where they stop; nothing else shows.
    pub open spec fn bursts(self, n: nat) -> Seq<HitFx> {
        gathered(
            n,
            |i: int|
                if self.shells[i].kind != ProjectileKind::Missile {
                    Seq::empty()
                } else {
                    match self.fate(i) {
                        Fate::Covered => seq![
                            HitFx::on_terrain_spec(HitKind::Blast, self.flights[i].slope),
                        ],
                        Fate::Struck(k) => seq![
                            HitFx::on_terrain_spec(
                                HitKind::Blast,
                                self.flights[i].meetings@[k as int].impact,
                            ),
                        ],
                        _ => Seq::empty(),
                    }
                },
        )
    }
}

/// Whether a blast empties a deposit.
pub open spec fn consumed(rules: &Rules, deposit: OreDeposit, distance: Real) -> bool {
    deposit.amount > 0 && distance <= rules.bomb_blast_radius
}

/// What a blast costs everybody standing close enough.
pub open spec fn blast_hits(
    targets: Seq<Target>,
    felt: Seq<Felt>,
    owner: u8,
    n: nat,
) -> Seq<Hit> {
    gathered(
        n,
        |k: int|
            listed_if(
                targets[k].player != owner && felt[k].damage > 0,
                Hit {
                    player: targets[k].player,
                    what: targets[k].what,
                    damage: felt[k].damage,
                    attacker: owner,
                    bearing: felt[k].bearing,
                },
            ),
    )
}

/// What a tick of flight does to a match.
pub open spec fn flight_outcome(before: &Game, after: &Game, flights: Seq<Flight>) -> bool {
    let v = before.volley(flights);
    &&& *after == Game { projectiles: after.projectiles, fx: after.fx, ..*before }
    &&& after.projectiles@ =~= v.kept(flights.len())
    &&& after.fx@ =~= before.fx@ + v.bursts(flights.len())
}

/// What a bomb going off does to a match.
pub open spec fn blast_outcome(
    before: &Game,
    after: &Game,
    bomb: Blast,
    distances: Seq<Real>,
) -> bool {
    &&& *after == Game {
        ore: after.ore,
        dirty_ore: after.dirty_ore,
        fx: after.fx,
        ..*before
    }
    &&& after.ore@ =~= Seq::new(
        before.ore@.len(),
        |i: int|
            if consumed(&before.rules, before.ore@[i], distances[i]) {
                OreDeposit { amount: 0, ..before.ore@[i] }
            } else {
                before.ore@[i]
            },
    )
    &&& forall|id: u16| #[trigger]
        after.dirty_ore@.contains(id) <==> before.dirty_ore@.contains(id) || (id
            < before.ore@.len() && consumed(
            &before.rules,
            before.ore@[id as int],
            distances[id as int],
        ))
    &&& after.fx@ =~= before.fx@.push(HitFx::on_terrain_spec(HitKind::Blast, bomb.at))
}

impl Game {
    /// This tick's flights, over this field.
    pub open spec fn volley(&self, flights: Seq<Flight>) -> Volley {
        Volley {
            rules: self.rules,
            ground: ground_targets(&self.rules, self.players@),
            air: air_targets(&self.rules, self.players@),
            shells: self.projectiles@,
            flights,
        }
    }

    /// Whether there is a flight for every projectile, and a meeting in it for
    /// everything the projectile could run into.
    pub open spec fn covers_flights(&self, flights: Seq<Flight>) -> bool {
        &&& flights.len() == self.projectiles@.len()
        &&& forall|i: int|
            0 <= i < flights.len() ==> (#[trigger] flights[i]).meetings@.len() == self.volley(
                flights,
            ).targets(i).len()
    }

    /// Flies everything in the air for one tick.
    ///
    /// What was hit and what landed is handed back to be settled: the blasts
    /// first, each with [`Game::blast`], then every hit with [`Game::strike`].
    pub fn step_projectiles(&mut self, flights: &Vec<Flight>) -> (r: Landed)
        requires
            old(self).wf(),
            old(self).covers_flights(flights@),
        ensures
            final(self).wf(),
            flight_outcome(old(self), final(self), flights@),
            forall|j: int|
                0 <= j < final(self).projectiles@.len() && (
                #[trigger] final(self).projectiles@[j]).kind == ProjectileKind::Missile
                    ==> final(self).projectiles@[j].speed <= old(self).rules.missile_max_speed,
            r.hits@ == old(self).volley(flights@).hits(flights@.len()),
            r.blasts@ == old(self).volley(flights@).blasts(flights@.len()),
    {
        let ground = self.collect_targets();
        let air = self.collect_aircraft();
        let mut kept: Vec<Projectile> = Vec::new();
        let mut hits: Vec<Hit> = Vec::new();
        let mut blasts: Vec<Blast> = Vec::new();
        let ghost v = self.volley(flights@);
        let mut i: usize = 0;
        while i < flights.len()
            invariant
                i <= flights@.len(),
                old(self).wf(),
                old(self).covers_flights(flights@),
                v == old(self).volley(flights@),
                ground@ == v.ground,
                air@ == v.air,
                *self == (Game { fx: self.fx, ..*old(self) }),
                kept@ == v.kept(i as nat),
                hits@ == v.hits(i as nat),
                blasts@ == v.blasts(i as nat),
                self.fx@ == old(self).fx@ + v.bursts(i as nat),
            decreases flights.len() - i,
        {
            let p = self.projectiles[i];
            let f = &flights[i];
            assert(v.flights[i as int] == *f);
            let targets: &Vec<Target> = if p.kind == ProjectileKind::Cannon {
                &air
            } else {
                &ground
            };
            assert(targets@ == v.targets(i as int));
            let end = fate(&self.rules, targets, &p, f);
            assert(end == v.fate(i as int));
            match end {
                Fate::Landed => {
                    blasts.push(Blast { owner: p.owner, at: p.pos });
                },
                Fate::Spent => {},
                Fate::Covered => {
                    if p.kind == ProjectileKind::Missile {
                        self.fx.push(HitFx::on_terrain(HitKind::Blast, f.slope));
                    }
                },
                Fate::Struck(k) => {
                    if p.kind == ProjectileKind::Missile {
                        self.fx.push(HitFx::on_terrain(HitKind::Blast, f.meetings[k].impact));
                    }
                    let damage: Real = match p.kind {
                        ProjectileKind::Bullet => self.rules.bullet_damage,
                        ProjectileKind::Missile => self.rules.missile_damage,
                        ProjectileKind::Cannon => self.rules.cannon_damage,
                        ProjectileKind::Bomb => 0,
                    };
                    hits.push(
                        Hit {
                            player: targets[k].player,
                            what: targets[k].what,
                            damage,
                            attacker: p.owner,
                            bearing: f.meetings[k].bearing,
                        },
                    );
                },
                Fate::Left => {},
                Fate::Flying => {
                    let mut next = p;
                    next.life = f.life;
                    next.pos = f.to;
                    if p.kind == ProjectileKind::Missile {
                        next.yaw = f.yaw;
                        next.speed = burn(&self.rules, f.speed);
                    }
                    kept.push(next);
                },
            }
            i = i + 1;
        }
        self.projectiles = kept;
        proof {
            lemma_what_flies_on(v, flights@.len());
        }
        Landed { hits, blasts }
    }

    /// Sets a bomb off.
    ///
    /// A bomb is aimed at a place, not at a hull: everything standing close
    /// enough pays, on a slope from the middle of the blast out to nothing at
    /// the rim. Ore in the blast is gone, not reduced: a deposit is the one
    /// thing on the field that cannot move out of the way.
    ///
    /// `distances` is how far each deposit is from the blast, and `felt` what
    /// each thing on the ground takes from it.
    pub fn blast(&mut self, bomb: Blast, distances: &Vec<Real>, felt: &Vec<Felt>) -> (r: Vec<Hit>)
        requires
            old(self).wf(),
            distances@.len() == old(self).ore@.len(),
            felt@.len() == ground_targets(&old(self).rules, old(self).players@).len(),
        ensures
            final(self).wf(),
            blast_outcome(old(self), final(self), bomb, distances@),
            r@ == blast_hits(
                ground_targets(&old(self).rules, old(self).players@),
                felt@,
                bomb.owner,
                felt@.len(),
            ),
    {
        let targets = self.collect_targets();
        self.fx.push(HitFx::on_terrain(HitKind::Blast, bomb.at));
        let mut i: usize = 0;
        while i < self.ore.len()
            invariant
                i <= self.ore@.len(),
                self.ore@.len() == old(self).ore@.len(),
                distances@.len() == old(self).ore@.len(),
                old(self).wf(),
                *self == (Game {
                    ore: self.ore,
                    dirty_ore: self.dirty_ore,
                    fx: self.fx,
                    ..*old(self)
                }),
                self.fx@ == old(self).fx@.push(HitFx::on_terrain_spec(HitKind::Blast, bomb.at)),
                forall|k: int|
                    #![trigger self.ore@[k]]
                    0 <= k < self.ore@.len() ==> self.ore@[k] == if k < i && consumed(
                        &old(self).rules,
                        old(self).ore@[k],
                        distances@[k],
                    ) {
                        OreDeposit { amount: 0, ..old(self).ore@[k] }
                    } else {
                        old(self).ore@[k]
                    },
                forall|id: u16| #[trigger]
                    self.dirty_ore@.contains(id) <==> old(self).dirty_ore@.contains(id) || (id < i
                        && consumed(
                        &old(self).rules,
                        old(self).ore@[id as int],
                        distances@[id as int],
                    )),
            decreases self.ore.len() - i,
        {
            let mut deposit = self.ore[i];
            if deposit.amount > 0 && distances[i] <= self.rules.bomb_blast_radius {
                deposit.amount = 0;
                self.ore[i] = deposit;
                self.dirty_ore.insert(i as u16);
            }
            i = i + 1;
        }
        let mut hits: Vec<Hit> = Vec::new();
        let mut k: usize = 0;
        while k < targets.len()
            invariant
                k <= targets@.len(),
                felt@.len() == targets@.len(),
                hits@ == blast_hits(targets@, felt@, bomb.owner, k as nat),
            decreases targets.len() - k,
        {
            if targets[k].player != bomb.owner && felt[k].damage > 0 {
                hits.push(
                    Hit {
                        player: targets[k].player,
                        what: targets[k].what,
                        damage: felt[k].damage,
                        attacker: bomb.owner,
                        bearing: felt[k].bearing,
                    },
                );
            }
            k = k + 1;
        }
        hits
    }
}

/// Nothing fired ever hits its owner.
pub proof fn lemma_no_hit_on_the_owner(v: Volley, n: nat)
    requires
        n <= v.shells.len(),
        v.flights.len() == v.shells.len(),
        forall|i: int|
            0 <= i < v.shells.len() ==> (#[trigger] v.flights[i]).meetings@.len() == v.targets(i).len(),
    ensures
        forall|j: int|
            0 <= j < v.hits(n).len() ==> (#[trigger] v.hits(n)[j]).player != v.hits(n)[j].attacker,
    decreases n,
{
    if n > 0 {
        lemma_no_hit_on_the_owner(v, (n - 1) as nat);
        let i = n - 1;
        let keys = contact_keys(&v.rules, v.shells[i].owner, v.targets(i), v.flights[i].meetings@);
        if v.fate(i) is Struck {
            let k = least_of(keys)->0;
            assert(is_first_least(keys, k));
            assert(v.flights[i].meetings.len() == v.flights[i].meetings@.len());
        }
    }
}

/// A blast costs its owner nothing either.
pub proof fn lemma_no_blast_on_the_owner(targets: Seq<Target>, felt: Seq<Felt>, owner: u8, n: nat)
    ensures
        forall|j: int|
            0 <= j < blast_hits(targets, felt, owner, n).len() ==> (#[trigger] blast_hits(
                targets,
                felt,
                owner,
                n,
            )[j]).player != owner,
    decreases n,
{
    if n > 0 {
        lemma_no_blast_on_the_owner(targets, felt, owner, (n - 1) as nat);
    }
}

/// Nothing on the ground can shoot an aircraft down: the cannon is the only
/// weapon that reaches one, and an aircraft is all it reaches.
pub proof fn lemma_only_the_cannon_reaches_an_aircraft(game: &Game, flights: Seq<Flight>, i: int)
    requires
        game.covers_flights(flights),
        0 <= i < flights.len(),
        game.volley(flights).fate(i) is Struck,
    ensures
        game.volley(flights).hit(i).what == Hittable::Vehicle(VehicleSlot::Plane)
            <==> game.projectiles@[i].kind == ProjectileKind::Cannon,
{
    let v = game.volley(flights);
    let keys = contact_keys(&v.rules, v.shells[i].owner, v.targets(i), v.flights[i].meetings@);
    let k = least_of(keys)->0;
    assert(is_first_least(keys, k));
    assert(v.flights[i].meetings.len() == v.flights[i].meetings@.len());
    lemma_ground_targets_hold_no_aircraft(&game.rules, game.players@);
    lemma_air_targets_are_aircraft(&game.rules, game.players@);
}

/// A round flies level, and reaches only the aircraft at its own height.
pub proof fn lemma_a_round_passes_what_is_above_it_or_below(
    game: &Game,
    flights: Seq<Flight>,
    i: int,
)
    requires
        game.covers_flights(flights),
        0 <= i < flights.len(),
        game.volley(flights).fate(i) is Struck,
        game.projectiles@[i].kind == ProjectileKind::Cannon,
    ensures
        flights[i].meetings@[game.volley(flights).fate(i)->Struck_0 as int].height_gap
            <= game.rules.same_height,
        flown(&game.rules, game.projectiles@[i], &flights[i]).alt == game.projectiles@[i].alt,
{
    let v = game.volley(flights);
    let keys = contact_keys(&v.rules, v.shells[i].owner, v.targets(i), v.flights[i].meetings@);
    let k = least_of(keys)->0;
    assert(is_first_least(keys, k));
    assert(v.flights[i].meetings.len() == v.flights[i].meetings@.len());
    lemma_air_targets_are_aircraft(&game.rules, game.players@);
    assert(v.targets(i)[k].what == Hittable::Vehicle(VehicleSlot::Plane));
}

/// A tick of flight by itself changes what is in the air and what is drawn, and
/// nothing else: the hills, the ore and everybody stay as they are until what
/// was hit is settled.
pub proof fn lemma_flight_leaves_the_field_alone(before: &Game, after: &Game, flights: Seq<Flight>)
    requires
        flight_outcome(before, after, flights),
    ensures
        after.hills == before.hills,
        after.ore == before.ore,
        after.players == before.players,
        after.events == before.events,
{
}

/// What is in the air after a tick was in the air before it, in the same order:
/// each has life left, is of the same kind, and is the same player's. Nothing
/// but a bomb leaves the field, and no missile is faster than it can be.
pub proof fn lemma_what_flies_on(v: Volley, n: nat)
    requires
        n <= v.shells.len(),
    ensures
        v.survivors(n).len() == v.kept(n).len(),
        forall|j: int| 0 <= j < v.survivors(n).len() ==> 0 <= #[trigger] v.survivors(n)[j] < n,
        forall|j: int, k: int|
            0 <= j < k < v.survivors(n).len() ==> #[trigger] v.survivors(n)[j]
                < #[trigger] v.survivors(n)[k],
        forall|j: int|
            0 <= j < v.kept(n).len() ==> {
                let was = v.shells[v.survivors(n)[j]];
                let is = #[trigger] v.kept(n)[j];
                &&& is.id == was.id
                &&& is.kind == was.kind
                &&& is.owner == was.owner
                &&& is.life == v.flights[v.survivors(n)[j]].life
                &&& is.life > 0
                &&& is.kind != ProjectileKind::Bomb ==> on_field(&v.rules, is.pos)
                &&& is.kind == ProjectileKind::Missile ==> is.speed <= v.rules.missile_max_speed
            },
    decreases n,
{
    if n > 0 {
        let m = (n - 1) as nat;
        lemma_what_flies_on(v, m);
        let flies = v.fate(n - 1) == Fate::Flying;
        let is = flown(&v.rules, v.shells[n - 1], &v.flights[n - 1]);
        assert(v.kept(n) == v.kept(m) + listed_if(flies, is));
        assert(v.survivors(n) == v.survivors(m) + listed_if(flies, n - 1));
        assert forall|j: int| 0 <= j < v.kept(n).len() implies {
            let was = v.shells[v.survivors(n)[j]];
            let is = #[trigger] v.kept(n)[j];
            &&& is.id == was.id
            &&& is.kind == was.kind
            &&& is.owner == was.owner
            &&& is.life == v.flights[v.survivors(n)[j]].life
            &&& is.life > 0
            &&& is.kind != ProjectileKind::Bomb ==> on_field(&v.rules, is.pos)
            &&& is.kind == ProjectileKind::Missile ==> is.speed <= v.rules.missile_max_speed
        } by {
            if j < v.kept(m).len() {
                assert(v.kept(n)[j] == v.kept(m)[j]);
                assert(v.survivors(n)[j] == v.survivors(m)[j]);
            }
        }
    }
}

/// A blast is on the ground, and so is everything it costs.
pub proof fn lemma_a_blast_reaches_no_aircraft(
    rules: &Rules,
    players: Seq<Option<Player>>,
    felt: Seq<Felt>,
    owner: u8,
    n: nat,
)
    requires
        n <= ground_targets(rules, players).len(),
    ensures
        forall|j: int|
            0 <= j < blast_hits(ground_targets(rules, players), felt, owner, n).len() ==> (
            #[trigger] blast_hits(ground_targets(rules, players), felt, owner, n)[j]).what
                != Hittable::Vehicle(VehicleSlot::Plane),
    decreases n,
{
    if n > 0 {
        lemma_a_blast_reaches_no_aircraft(rules, players, felt, owner, (n - 1) as nat);
        lemma_ground_targets_hold_no_aircraft(rules, players);
        assert(ground_targets(rules, players)[n - 1].what != Hittable::Vehicle(VehicleSlot::Plane));
    }
}

/// A missile locks the nearest thing it can lock: somebody else's, in range and
/// inside the cone ahead. It locks nothing only when there is nothing to lock.
pub proof fn lemma_a_missile_locks_the_nearest(
    rules: &Rules,
    owner: u8,
    targets: Seq<Target>,
    sightings: Seq<Sighting>,
)
    requires
        sightings.len() == targets.len(),
    ensures
        match least_of(lock_keys(rules, owner, targets, sightings)) {
            Some(j) => {
                &&& 0 <= j < targets.len()
                &&& targets[j].player != owner
                &&& SEEK_MINIMUM <= sightings[j].distance <= rules.missile_seek_range
                &&& sightings[j].off_nose <= rules.missile_seek_cone
                &&& forall|k: int|
                    0 <= k < targets.len() && (#[trigger] targets[k]).player != owner
                        && SEEK_MINIMUM <= sightings[k].distance <= rules.missile_seek_range
                        && sightings[k].off_nose <= rules.missile_seek_cone
                        ==> sightings[j].distance <= sightings[k].distance
            },
            None => forall|k: int|
                0 <= k < targets.len() ==> (#[trigger] targets[k]).player == owner
                    || sightings[k].distance < SEEK_MINIMUM || sightings[k].distance
                    > rules.missile_seek_range || sightings[k].off_nose > rules.missile_seek_cone,
        },
{
    let keys = lock_keys(rules, owner, targets, sightings);
    lemma_least(keys);
    assert forall|k: int|
        0 <= k < targets.len() && (#[trigger] targets[k]).player != owner && SEEK_MINIMUM
            <= sightings[k].distance <= rules.missile_seek_range && sightings[k].off_nose
            <= rules.missile_seek_cone implies keys[k] == Some(sightings[k].distance) by {}
}

/// What stops a projectile is the first thing in its way: somebody else's, and
/// at its own height where that is in the air.
pub proof fn lemma_the_first_thing_in_the_way_is_met(
    rules: &Rules,
    owner: u8,
    targets: Seq<Target>,
    meetings: Seq<Meeting>,
)
    requires
        meetings.len() == targets.len(),
    ensures
        match least_of(contact_keys(rules, owner, targets, meetings)) {
            Some(i) => {
                &&& 0 <= i < targets.len()
                &&& targets[i].player != owner
                &&& meetings[i].at is Some
                &&& targets[i].what == Hittable::Vehicle(VehicleSlot::Plane)
                    ==> meetings[i].height_gap <= rules.same_height
                &&& forall|k: int|
                    0 <= k < targets.len() && (#[trigger] targets[k]).player != owner
                        && meetings[k].at is Some && (targets[k].what != Hittable::Vehicle(
                        VehicleSlot::Plane,
                    ) || meetings[k].height_gap <= rules.same_height) ==> meetings[i].at->0
                        <= meetings[k].at->0
            },
            None => forall|k: int|
                0 <= k < targets.len() ==> (#[trigger] targets[k]).player == owner
                    || meetings[k].at is None || (targets[k].what == Hittable::Vehicle(
                    VehicleSlot::Plane,
                ) && meetings[k].height_gap > rules.same_height),
        },
{
    let keys = contact_keys(rules, owner, targets, meetings);
    lemma_least(keys);
    assert forall|k: int|
        0 <= k < targets.len() && (#[trigger] targets[k]).player != owner && meetings[k].at is Some
            && (targets[k].what != Hittable::Vehicle(VehicleSlot::Plane) || meetings[k].height_gap
            <= rules.same_height) implies keys[k] == meetings[k].at by {}
}

/// A shot that lands costs what its kind costs, is charged to whoever fired it,
/// and is paid by what it ran into.
pub proof fn lemma_a_hit_costs_what_was_fired(v: Volley, i: int)
    requires
        0 <= i < v.shells.len(),
        v.fate(i) is Struck,
    ensures
        ({
            let hit = v.hit(i);
            let k = v.fate(i)->Struck_0 as int;
            &&& hit.attacker == v.shells[i].owner
            &&& hit.player == v.targets(i)[k].player && hit.what == v.targets(i)[k].what
            &&& hit.bearing == v.flights[i].meetings@[k].bearing
            &&& v.shells[i].kind == ProjectileKind::Bullet ==> hit.damage == v.rules.bullet_damage
            &&& v.shells[i].kind == ProjectileKind::Missile ==> hit.damage
                == v.rules.missile_damage
            &&& v.shells[i].kind == ProjectileKind::Cannon ==> hit.damage == v.rules.cannon_damage
        }),
{
}

/// What flies on goes where it flew. Only a missile turns and burns; everything
/// else holds its heading and its speed, and nothing changes height.
pub proof fn lemma_a_shell_flies_straight(rules: &Rules, p: Projectile, f: &Flight)
    ensures
        flown(rules, p, f).pos == f.to,
        flown(rules, p, f).life == f.life,
        flown(rules, p, f).alt == p.alt,
        flown(rules, p, f).id == p.id,
        flown(rules, p, f).kind == p.kind,
        flown(rules, p, f).owner == p.owner,
        p.kind != ProjectileKind::Missile ==> flown(rules, p, f).yaw == p.yaw && flown(
            rules,
            p,
            f,
        ).speed == p.speed,
        p.kind == ProjectileKind::Missile ==> flown(rules, p, f).yaw == f.yaw,
        p.kind == ProjectileKind::Missile && f.speed <= rules.missile_max_speed ==> flown(
            rules,
            p,
            f,
        ).speed == f.speed,
        p.kind == ProjectileKind::Missile && f.speed > rules.missile_max_speed ==> flown(
            rules,
            p,
            f,
        ).speed == rules.missile_max_speed,
{
}

/// Every shot that lands is paid for, every bomb that reaches the ground goes off
/// where it was, and everything else that is still going flies on.
pub proof fn lemma_what_lands_is_settled(v: Volley, i: int)
    requires
        0 <= i < v.shells.len(),
    ensures
        v.fate(i) is Struck ==> v.hits(v.shells.len()).contains(v.hit(i)),
        v.fate(i) == Fate::Landed ==> v.blasts(v.shells.len()).contains(
            Blast { owner: v.shells[i].owner, at: v.shells[i].pos },
        ),
        v.fate(i) == Fate::Flying ==> v.kept(v.shells.len()).contains(
            flown(&v.rules, v.shells[i], &v.flights[i]),
        ),
{
    let n = v.shells.len();
    let hits = |i: int| listed_if(v.fate(i) is Struck, v.hit(i));
    let bombs = |i: int|
        listed_if(
            v.fate(i) == Fate::Landed,
            Blast { owner: v.shells[i].owner, at: v.shells[i].pos },
        );
    let kept = |i: int|
        listed_if(v.fate(i) == Fate::Flying, flown(&v.rules, v.shells[i], &v.flights[i]));
    if v.fate(i) is Struck {
        assert(hits(i)[0] == v.hit(i));
        lemma_gathered_holds(n, hits, i, v.hit(i));
    }
    if v.fate(i) == Fate::Landed {
        let b = Blast { owner: v.shells[i].owner, at: v.shells[i].pos };
        assert(bombs(i)[0] == b);
        lemma_gathered_holds(n, bombs, i, b);
    }
    if v.fate(i) == Fate::Flying {
        let s = flown(&v.rules, v.shells[i], &v.flights[i]);
        assert(kept(i)[0] == s);
        lemma_gathered_holds(n, kept, i, s);
    }
}

/// A bomb empties every deposit in its blast and touches no other, and leaves
/// everybody to be charged.
pub proof fn lemma_a_bomb_empties_what_it_reaches(
    before: &Game,
    after: &Game,
    bomb: Blast,
    distances: Seq<Real>,
    k: int,
)
    requires
        blast_outcome(before, after, bomb, distances),
        before.ore@.len() <= 0x1_0000,
        0 <= k < before.ore@.len(),
    ensures
        after.ore@.len() == before.ore@.len(),
        after.ore@[k].pos == before.ore@[k].pos && after.ore@[k].capacity
            == before.ore@[k].capacity,
        distances[k] <= before.rules.bomb_blast_radius && before.ore@[k].amount > 0
            ==> after.ore@[k].amount == 0 && after.dirty_ore@.contains(k as u16),
        distances[k] > before.rules.bomb_blast_radius ==> after.ore@[k] == before.ore@[k]
            && after.dirty_ore@.contains(k as u16) == before.dirty_ore@.contains(k as u16),
        after.players == before.players && after.projectiles == before.projectiles,
        after.fx@.len() == before.fx@.len() + 1,
        after.fx@.last().pos == bomb.at && after.fx@.last().kind == HitKind::Blast,
{
}

/// Everybody else's that felt a blast pays what it felt, charged to whoever
/// dropped the bomb.
pub proof fn lemma_a_blast_charges_what_was_felt(
    targets: Seq<Target>,
    felt: Seq<Felt>,
    owner: u8,
    k: int,
)
    requires
        felt.len() == targets.len(),
        0 <= k < targets.len(),
        targets[k].player != owner,
        felt[k].damage > 0,
    ensures
        blast_hits(targets, felt, owner, felt.len()).contains(
            Hit {
                player: targets[k].player,
                what: targets[k].what,
                damage: felt[k].damage,
                attacker: owner,
                bearing: felt[k].bearing,
            },
        ),
{
    let f = |k: int|
        listed_if(
            targets[k].player != owner && felt[k].damage > 0,
            Hit {
                player: targets[k].player,
                what: targets[k].what,
                damage: felt[k].damage,
                attacker: owner,
                bearing: felt[k].bearing,
            },
        );
    let hit = Hit {
        player: targets[k].player,
        what: targets[k].what,
        damage: felt[k].damage,
        attacker: owner,
        bearing: felt[k].bearing,
    };
    assert(f(k)[0] == hit);
    lemma_gathered_holds(felt.len(), f, k, hit);
}

/// A missile that is stopped goes off where it was stopped; nothing else shows.
pub proof fn lemma_a_stopped_missile_bursts(v: Volley, i: int)
    requires
        0 <= i < v.shells.len(),
        v.shells[i].kind == ProjectileKind::Missile,
    ensures
        v.fate(i) == Fate::Covered ==> v.bursts(v.shells.len()).contains(
            HitFx { kind: HitKind::Blast, pos: v.flights[i].slope, angle: 0, struck: None },
        ),
        v.fate(i) is Struck ==> v.bursts(v.shells.len()).contains(
            HitFx {
                kind: HitKind::Blast,
                pos: v.flights[i].meetings@[v.fate(i)->Struck_0 as int].impact,
                angle: 0,
                struck: None,
            },
        ),
{
    let n = v.shells.len();
    let f = |i: int|
        if v.shells[i].kind != ProjectileKind::Missile {
            Seq::empty()
        } else {
            match v.fate(i) {
                Fate::Covered => seq![
                    HitFx::on_terrain_spec(HitKind::Blast, v.flights[i].slope),
                ],
                Fate::Struck(k) => seq![
                    HitFx::on_terrain_spec(
                        HitKind::Blast,
                        v.flights[i].meetings@[k as int].impact,
                    ),
                ],
                _ => Seq::empty(),
            }
        };
    if v.fate(i) == Fate::Covered || v.fate(i) is Struck {
        assert(f(i).contains(f(i)[0]));
        lemma_gathered_holds(n, f, i, f(i)[0]);
    }
}

/// Nothing is paid for that did not land, no bomb goes off that did not reach the
/// ground, and nothing is made in flight: whatever became of a projectile, one
/// thing did.
pub proof fn lemma_nothing_lands_twice(v: Volley, n: nat)
    requires
        n <= v.shells.len(),
    ensures
        v.hits(n).len() + v.blasts(n).len() + v.kept(n).len() <= n,
        v.bursts(n).len() <= n,
        forall|h: Hit| #[trigger]
            v.hits(n).contains(h) ==> exists|i: int|
                0 <= i < n && (#[trigger] v.fate(i)) is Struck && h == v.hit(i),
        forall|b: Blast| #[trigger]
            v.blasts(n).contains(b) ==> exists|i: int|
                0 <= i < n && #[trigger] v.fate(i) == Fate::Landed && b.owner == v.shells[i].owner
                    && b.at == v.shells[i].pos,
    decreases n,
{
    if n > 0 {
        lemma_nothing_lands_twice(v, (n - 1) as nat);
    }
    let hits = |i: int| listed_if(v.fate(i) is Struck, v.hit(i));
    let bombs = |i: int|
        listed_if(
            v.fate(i) == Fate::Landed,
            Blast { owner: v.shells[i].owner, at: v.shells[i].pos },
        );
    assert forall|h: Hit| #[trigger] v.hits(n).contains(h) implies exists|i: int|
        0 <= i < n && (#[trigger] v.fate(i)) is Struck && h == v.hit(i) by {
        lemma_gathered_from(n, hits, h);
        let i = choose|i: int| 0 <= i < n && (#[trigger] hits(i)).contains(h);
        let own = hits(i);
        let z = choose|z: int| 0 <= z < own.len() && own[z] == h;
        assert(own[z] == h);
        assert(v.fate(i) is Struck);
    }
    assert forall|b: Blast| #[trigger] v.blasts(n).contains(b) implies exists|i: int|
        0 <= i < n && #[trigger] v.fate(i) == Fate::Landed && b.owner == v.shells[i].owner && b.at
            == v.shells[i].pos by {
        lemma_gathered_from(n, bombs, b);
        let i = choose|i: int| 0 <= i < n && (#[trigger] bombs(i)).contains(b);
        let own = bombs(i);
        let z = choose|z: int| 0 <= z < own.len() && own[z] == b;
        assert(own[z] == b);
        assert(v.fate(i) == Fate::Landed);
    }
}

/// A blast charges nobody who did not feel it, and nobody twice.
pub proof fn lemma_a_blast_charges_nobody_else(
    targets: Seq<Target>,
    felt: Seq<Felt>,
    owner: u8,
    n: nat,
    h: Hit,
)
    requires
        n <= felt.len(),
        felt.len() == targets.len(),
        blast_hits(targets, felt, owner, n).contains(h),
    ensures
        blast_hits(targets, felt, owner, n).len() <= n,
        h.attacker == owner,
        h.damage > 0,
        exists|k: int|
            0 <= k < n && (#[trigger] targets[k]).player == h.player && targets[k].what == h.what
                && felt[k].damage == h.damage && targets[k].player != owner,
{
    let f = |k: int|
        listed_if(
            targets[k].player != owner && felt[k].damage > 0,
            Hit {
                player: targets[k].player,
                what: targets[k].what,
                damage: felt[k].damage,
                attacker: owner,
                bearing: felt[k].bearing,
            },
        );
    lemma_gathered_from(n, f, h);
    let k = choose|k: int| 0 <= k < n && (#[trigger] f(k)).contains(h);
    let own = f(k);
    let z = choose|z: int| 0 <= z < own.len() && own[z] == h;
    assert(own[z] == h);
    assert(targets[k].player == h.player);
    lemma_at_most_one_each(targets, felt, owner, n);
}

proof fn lemma_at_most_one_each(targets: Seq<Target>, felt: Seq<Felt>, owner: u8, n: nat)
    ensures
        blast_hits(targets, felt, owner, n).len() <= n,
    decreases n,
{
    if n > 0 {
        lemma_at_most_one_each(targets, felt, owner, (n - 1) as nat);
    }
}

/// A shot is stopped by whatever it comes to first: a hill before anything it
/// would have hit, or what it hits before any hill; and it flies on only where
/// nothing stops it and it is still over the field. A cannon round clears every
/// hill, and a bomb in the air meets nothing.
pub proof fn lemma_a_shot_is_stopped_by_what_it_meets(
    rules: &Rules,
    targets: Seq<Target>,
    p: Projectile,
    f: &Flight,
)
    requires
        f.meetings@.len() == targets.len(),
        targets.len() <= usize::MAX,
    ensures
        ({
            let r = fate_of(rules, targets, p, f);
            let over = 0 < f.to.x < rules.world_size && 0 < f.to.y < rules.world_size;
            &&& f.life <= 0 ==> r == (if p.kind == ProjectileKind::Bomb {
                Fate::Landed
            } else {
                Fate::Spent
            })
            &&& f.life > 0 && p.kind == ProjectileKind::Bomb ==> r == Fate::Flying
            &&& r == Fate::Covered ==> p.kind != ProjectileKind::Cannon && f.hill is Some
            &&& r == Fate::Covered ==> forall|j: int|
                0 <= j < targets.len() && (#[trigger] targets[j]).player != p.owner
                    && f.meetings@[j].at is Some && targets[j].what != Hittable::Vehicle(
                    VehicleSlot::Plane,
                ) ==> f.hill->0 < f.meetings@[j].at->0
            &&& r is Struck && p.kind != ProjectileKind::Cannon && f.hill is Some
                ==> f.meetings@[r->Struck_0 as int].at->0 <= f.hill->0
            &&& r == Fate::Left ==> !over
            &&& r == Fate::Flying && p.kind != ProjectileKind::Bomb ==> over && (f.hill is None
                || p.kind == ProjectileKind::Cannon)
        }),
{
    lemma_the_first_thing_in_the_way_is_met(rules, p.owner, targets, f.meetings@);
}

} // verus!
