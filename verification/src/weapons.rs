//! Who fires, and at what: the tank's guns, the bomb bay and the cannon, the
//! turret on a miner, and the emplacements.

use vstd::prelude::*;

use crate::combat::{ground_targets, Hittable, Target};
use crate::game::{Game, Projectile};
use crate::measure::{
    first_least, gathered, least_of, lemma_gathered_from, lemma_gathered_holds, lemma_least,
    listed_if, same_index, Real, Vec2,
};
use crate::player::{Player, Sentinel, Vehicle};
use crate::protocol::{GameEvent, PowerUp, ProjectileKind, VehicleSlot};
use crate::rules::{Rules, AIM_TOLERANCE};

verus! {

/// A turret turned toward one target for one tick.
#[derive(Clone, Copy, Debug, PartialEq, Eq, Structural)]
pub struct Slew {
    /// Where the turret ends up pointing.
    pub yaw: Real,
    /// How far off the target that still is, either way.
    pub off: Real,
    /// Where a shell would leave.
    pub muzzle: Vec2,
}

/// What a player's guns see.
#[derive(Debug)]
pub struct Sights {
    /// Where a tank shell would leave, and how long it would fly.
    pub muzzle: Vec2,
    pub shell_life: Real,
    /// How long a bomb let go now would fall. The fall is the height it is let
    /// go from, so a bomb from the ceiling is a long throw and one off the floor
    /// lands almost underneath.
    pub fall: Real,
    /// From the miner: how far each target is, and the turret turned to it.
    pub ranges: Vec<Real>,
    pub slews: Vec<Slew>,
}

/// What an emplacement sees, and its clocks once the tick is off them.
#[derive(Debug)]
pub struct Watch {
    pub rebuild_timer: Real,
    pub gun_cooldown: Real,
    pub ranges: Vec<Real>,
    pub slews: Vec<Slew>,
}

/// Each target the miner's turret could engage, by how far off it is.
pub open spec fn turret_keys(
    rules: &Rules,
    owner: u8,
    targets: Seq<Target>,
    ranges: Seq<Real>,
) -> Seq<Option<Real>> {
    Seq::new(
        targets.len(),
        |k: int|
            if targets[k].player != owner && ranges[k] <= rules.auto_turret_range {
                Some(ranges[k])
            } else {
                None
            },
    )
}

fn nearest_threat(rules: &Rules, owner: u8, targets: &Vec<Target>, ranges: &Vec<Real>) -> (r: Option<
    usize,
>)
    requires
        ranges@.len() == targets@.len(),
    ensures
        match r {
            Some(j) => {
                &&& targets@[j as int].player != owner
                &&& ranges@[j as int] <= rules.auto_turret_range
                &&& forall|k: int|
                    0 <= k < targets@.len() && (#[trigger] targets@[k]).player != owner
                        ==> ranges@[j as int] <= ranges@[k]
            },
            None => forall|k: int|
                0 <= k < targets@.len() ==> (#[trigger] targets@[k]).player == owner || ranges@[k]
                    > rules.auto_turret_range,
        },
        same_index(r, least_of(turret_keys(rules, owner, targets@, ranges@))),
        r is Some ==> r->0 < targets@.len(),
{
    let mut keys: Vec<Option<Real>> = Vec::new();
    let mut k: usize = 0;
    while k < targets.len()
        invariant
            k <= targets@.len(),
            ranges@.len() == targets@.len(),
            keys@ =~= turret_keys(rules, owner, targets@, ranges@).take(k as int),
        decreases targets.len() - k,
    {
        if targets[k].player != owner && ranges[k] <= rules.auto_turret_range {
            keys.push(Some(ranges[k]));
        } else {
            keys.push(None);
        }
        k = k + 1;
    }
    assert(keys@ =~= turret_keys(rules, owner, targets@, ranges@));
    proof {
        lemma_a_turret_turns_to_the_nearest(rules, owner, targets@, ranges@);
    }
    first_least(&keys)
}

impl Player {
    pub open spec fn fires_gun(self) -> bool {
        let input = self.effective_input_spec();
        input.controlling == VehicleSlot::Tank && self.tank is Some && input.fire_primary
            && self.tank->0.gun_cooldown <= 0
    }

    pub open spec fn fires_missile(self) -> bool {
        let input = self.effective_input_spec();
        input.controlling == VehicleSlot::Tank && self.tank is Some && input.fire_secondary
            && self.tank->0.missile_cooldown <= 0 && self.missiles > 0
    }

    /// The bomb bay. There is nothing to aim: a bomb leaves with the aircraft's
    /// own velocity and falls.
    pub open spec fn drops_bomb(self) -> bool {
        let input = self.effective_input_spec();
        input.controlling == VehicleSlot::Plane && self.plane is Some && input.fire_primary
            && self.plane->0.gun_cooldown <= 0
    }

    /// The cannon has no ammunition and no turret: it fires where the nose is
    /// pointed, at the height being flown.
    pub open spec fn fires_cannon(self) -> bool {
        let input = self.effective_input_spec();
        input.controlling == VehicleSlot::Plane && self.plane is Some && input.fire_secondary
            && self.plane->0.missile_cooldown <= 0
    }

    /// What the miner's turret turns to. The miner cannot be aimed by the
    /// player; with the Auto Turret it defends itself.
    pub open spec fn engages(self, rules: &Rules, targets: Seq<Target>, s: &Sights) -> Option<int> {
        if PowerUp::AutoTurret.held_spec(self.powerups) && self.miner is Some
            && !self.miner->0.disabled {
            least_of(turret_keys(rules, self.id, targets, s.ranges@))
        } else {
            None
        }
    }

    pub open spec fn defends(self, rules: &Rules, targets: Seq<Target>, s: &Sights) -> bool {
        match self.engages(rules, targets, s) {
            Some(k) => self.miner->0.gun_cooldown <= 0 && s.slews@[k].off < AIM_TOLERANCE,
            None => false,
        }
    }

    /// A player once everything that fires has fired.
    pub open spec fn after_firing(self, rules: &Rules, targets: Seq<Target>, s: &Sights) -> Player {
        Player {
            missiles: if self.fires_missile() {
                (self.missiles - 1) as u8
            } else {
                self.missiles
            },
            tank: match self.tank {
                Some(t) => Some(
                    Vehicle {
                        gun_cooldown: if self.fires_gun() {
                            rules.tank_gun.cooldown
                        } else {
                            t.gun_cooldown
                        },
                        missile_cooldown: if self.fires_missile() {
                            rules.missile.cooldown
                        } else {
                            t.missile_cooldown
                        },
                        ..t
                    },
                ),
                None => None,
            },
            plane: match self.plane {
                Some(a) => Some(
                    Vehicle {
                        gun_cooldown: if self.drops_bomb() {
                            rules.bomb_cooldown
                        } else {
                            a.gun_cooldown
                        },
                        missile_cooldown: if self.fires_cannon() {
                            rules.cannon.cooldown
                        } else {
                            a.missile_cooldown
                        },
                        ..a
                    },
                ),
                None => None,
            },
            miner: match self.miner {
                Some(m) => Some(
                    match self.engages(rules, targets, s) {
                        Some(k) => Vehicle {
                            turret_yaw: s.slews@[k].yaw,
                            gun_cooldown: if self.defends(rules, targets, s) {
                                rules.auto_turret_gun.cooldown
                            } else {
                                m.gun_cooldown
                            },
                            ..m
                        },
                        None => m,
                    },
                ),
                None => None,
            },
            ..self
        }
    }

    /// What left the barrels, not yet numbered.
    pub open spec fn fired(self, rules: &Rules, targets: Seq<Target>, s: &Sights) -> Seq<Projectile> {
        let k = self.engages(rules, targets, s)->0;
        listed_if(
            self.fires_gun(),
            Projectile {
                id: 0,
                kind: ProjectileKind::Bullet,
                owner: self.id,
                pos: s.muzzle,
                yaw: self.tank->0.turret_yaw,
                speed: rules.tank_gun.speed,
                life: s.shell_life,
                alt: 0,
            },
        ) + listed_if(
            self.fires_missile(),
            Projectile {
                id: 0,
                kind: ProjectileKind::Missile,
                owner: self.id,
                pos: s.muzzle,
                yaw: self.tank->0.turret_yaw,
                speed: rules.missile.speed,
                life: rules.missile.life,
                alt: 0,
            },
        ) + listed_if(
            self.drops_bomb(),
            Projectile {
                id: 0,
                kind: ProjectileKind::Bomb,
                owner: self.id,
                pos: self.plane->0.mv.pos,
                yaw: self.plane->0.mv.yaw,
                speed: self.plane->0.mv.speed,
                life: s.fall,
                alt: 0,
            },
        ) + listed_if(
            self.fires_cannon(),
            Projectile {
                id: 0,
                kind: ProjectileKind::Cannon,
                owner: self.id,
                pos: self.plane->0.mv.pos,
                yaw: self.plane->0.mv.yaw,
                speed: rules.cannon.speed,
                life: rules.cannon.life,
                alt: self.plane->0.mv.alt,
            },
        ) + listed_if(
            self.defends(rules, targets, s),
            Projectile {
                id: 0,
                kind: ProjectileKind::Bullet,
                owner: self.id,
                pos: s.slews@[k].muzzle,
                yaw: s.slews@[k].yaw,
                speed: rules.auto_turret_gun.speed,
                life: rules.auto_turret_gun.life,
                alt: 0,
            },
        )
    }

    /// Fires everything of this player's that is due to fire.
    pub fn fire(
        &mut self,
        rules: &Rules,
        targets: &Vec<Target>,
        s: &Sights,
        spawned: &mut Vec<Projectile>,
    )
        requires
            s.ranges@.len() == targets@.len(),
            s.slews@.len() == targets@.len(),
        ensures
            final(self).missiles + how_many(final(spawned)@, ProjectileKind::Missile) == old(
                self,
            ).missiles + how_many(old(spawned)@, ProjectileKind::Missile),
            old(spawned)@.len() <= final(spawned)@.len(),
            forall|k: int|
                0 <= k < old(spawned)@.len() ==> #[trigger] final(spawned)@[k] == old(spawned)@[k],
            forall|k: int|
                old(spawned)@.len() <= k < final(spawned)@.len() ==> (#[trigger] final(spawned)@[k]).owner
                    == old(self).id,
            *final(self) == old(self).after_firing(rules, targets@, s),
            final(spawned)@ == old(spawned)@ + old(self).fired(rules, targets@, s),
    {
        proof {
            lemma_missiles_fired_are_missiles_spent(*self, rules, targets@, s);
            lemma_how_many_in_two(
                spawned@,
                self.fired(rules, targets@, s),
                ProjectileKind::Missile,
            );
            lemma_shots_are_the_shooters(*self, rules, targets@, s);
        }
        let owner: u8 = self.id;
        let input = self.effective_input();
        if input.controlling == VehicleSlot::Tank {
            let missiles: u8 = self.missiles;
            if let Some(tank) = self.tank.as_mut() {
                if input.fire_primary && tank.gun_cooldown <= 0 {
                    tank.gun_cooldown = rules.tank_gun.cooldown;
                    spawned.push(
                        Projectile {
                            id: 0,
                            kind: ProjectileKind::Bullet,
                            owner,
                            pos: s.muzzle,
                            yaw: tank.turret_yaw,
                            speed: rules.tank_gun.speed,
                            life: s.shell_life,
                            alt: 0,
                        },
                    );
                }
                if input.fire_secondary && tank.missile_cooldown <= 0 && missiles > 0 {
                    tank.missile_cooldown = rules.missile.cooldown;
                    self.missiles = missiles - 1;
                    spawned.push(
                        Projectile {
                            id: 0,
                            kind: ProjectileKind::Missile,
                            owner,
                            pos: s.muzzle,
                            yaw: tank.turret_yaw,
                            speed: rules.missile.speed,
                            life: rules.missile.life,
                            alt: 0,
                        },
                    );
                }
            }
        }
        if input.controlling == VehicleSlot::Plane {
            if let Some(plane) = self.plane.as_mut() {
                if input.fire_primary && plane.gun_cooldown <= 0 {
                    plane.gun_cooldown = rules.bomb_cooldown;
                    spawned.push(
                        Projectile {
                            id: 0,
                            kind: ProjectileKind::Bomb,
                            owner,
                            pos: plane.mv.pos,
                            yaw: plane.mv.yaw,
                            speed: plane.mv.speed,
                            life: s.fall,
                            alt: 0,
                        },
                    );
                }
                if input.fire_secondary && plane.missile_cooldown <= 0 {
                    plane.missile_cooldown = rules.cannon.cooldown;
                    spawned.push(
                        Projectile {
                            id: 0,
                            kind: ProjectileKind::Cannon,
                            owner,
                            pos: plane.mv.pos,
                            yaw: plane.mv.yaw,
                            speed: rules.cannon.speed,
                            life: rules.cannon.life,
                            alt: plane.mv.alt,
                        },
                    );
                }
            }
        }
        if PowerUp::AutoTurret.held(self.powerups) {
            if let Some(m) = self.miner.as_mut() {
                if !m.disabled {
                    if let Some(k) = nearest_threat(rules, owner, targets, &s.ranges) {
                        let slew = s.slews[k];
                        m.turret_yaw = slew.yaw;
                        if m.gun_cooldown <= 0 && slew.off < AIM_TOLERANCE {
                            m.gun_cooldown = rules.auto_turret_gun.cooldown;
                            spawned.push(
                                Projectile {
                                    id: 0,
                                    kind: ProjectileKind::Bullet,
                                    owner,
                                    pos: slew.muzzle,
                                    yaw: slew.yaw,
                                    speed: rules.auto_turret_gun.speed,
                                    life: rules.auto_turret_gun.life,
                                    alt: 0,
                                },
                            );
                        }
                    }
                }
            }
        }
        assert(spawned@ =~= old(spawned)@ + old(self).fired(rules, targets@, s));
    }
}

/// The enemies an emplacement can reach, in target order. It does not shoot at
/// other emplacements.
pub open spec fn in_reach(
    rules: &Rules,
    owner: u8,
    targets: Seq<Target>,
    ranges: Seq<Real>,
    n: nat,
) -> Seq<int> {
    gathered(
        n,
        |k: int|
            listed_if(
                targets[k].player != owner && targets[k].what != Hittable::Sentinel && ranges[k]
                    <= rules.sentinel_range,
                k,
            ),
    )
}

/// The enemy an emplacement is engaging. It works through the ones in range in
/// turn rather than always engaging the nearest, so a pair of attackers cannot
/// have one of them soak every shell while the other works unmolested.
pub open spec fn engaged(
    rules: &Rules,
    owner: u8,
    targets: Seq<Target>,
    w: &Watch,
    cursor: usize,
) -> Option<int> {
    let reach = in_reach(rules, owner, targets, w.ranges@, targets.len());
    if reach.len() == 0 {
        None
    } else {
        Some(reach[cursor as int % reach.len() as int])
    }
}

/// A cursor moved on by one.
pub open spec fn advanced(cursor: usize) -> usize {
    if cursor == usize::MAX {
        0
    } else {
        (cursor + 1) as usize
    }
}

impl Sentinel {
    /// Whether this tick is the one it comes back on.
    pub open spec fn rises(self, w: &Watch) -> bool {
        !self.is_standing() && w.rebuild_timer <= 0
    }

    /// Whether it takes its shot.
    pub open spec fn shoots(self, rules: &Rules, owner: u8, targets: Seq<Target>, w: &Watch) -> bool {
        self.is_standing() && match engaged(rules, owner, targets, w, self.cursor) {
            Some(k) => w.gun_cooldown <= 0 && w.slews@[k].off < AIM_TOLERANCE,
            None => false,
        }
    }

    /// An emplacement once a tick of watching is over. The cursor only moves
    /// when a shell leaves, so it stays committed until it has taken its shot.
    pub open spec fn after_watch(
        self,
        rules: &Rules,
        owner: u8,
        targets: Seq<Target>,
        w: &Watch,
    ) -> Sentinel {
        if !self.is_standing() {
            Sentinel {
                rebuild_timer: w.rebuild_timer,
                hull: if w.rebuild_timer <= 0 {
                    rules.sentinel_hull
                } else {
                    self.hull
                },
                ..self
            }
        } else {
            match engaged(rules, owner, targets, w, self.cursor) {
                None => Sentinel { gun_cooldown: w.gun_cooldown, ..self },
                Some(k) => if self.shoots(rules, owner, targets, w) {
                    Sentinel {
                        turret_yaw: w.slews@[k].yaw,
                        gun_cooldown: rules.sentinel_gun.cooldown,
                        cursor: advanced(self.cursor),
                        ..self
                    }
                } else {
                    Sentinel {
                        turret_yaw: w.slews@[k].yaw,
                        gun_cooldown: w.gun_cooldown,
                        ..self
                    }
                },
            }
        }
    }

    /// The shell that leaves, not yet numbered.
    pub open spec fn shell(self, rules: &Rules, owner: u8, targets: Seq<Target>, w: &Watch) -> Seq<
        Projectile,
    > {
        let k = engaged(rules, owner, targets, w, self.cursor)->0;
        listed_if(
            self.shoots(rules, owner, targets, w),
            Projectile {
                id: 0,
                kind: ProjectileKind::Bullet,
                owner,
                pos: w.slews@[k].muzzle,
                yaw: w.slews@[k].yaw,
                speed: rules.sentinel_gun.speed,
                life: rules.sentinel_gun.life,
                alt: 0,
            },
        )
    }

    /// Watches for one tick: picks a target, slews onto it, fires. Says whether
    /// it came back from rubble.
    pub fn watch(
        &mut self,
        rules: &Rules,
        owner: u8,
        targets: &Vec<Target>,
        w: &Watch,
        spawned: &mut Vec<Projectile>,
    ) -> (risen: bool)
        requires
            w.ranges@.len() == targets@.len(),
            w.slews@.len() == targets@.len(),
        ensures
            risen <==> old(self).rebuild_timer > 0 && final(self).rebuild_timer <= 0,
            old(self).rebuild_timer > 0 ==> {
                &&& final(self).rebuild_timer == w.rebuild_timer
                &&& final(spawned)@ =~= old(spawned)@
                &&& risen ==> final(self).hull == rules.sentinel_hull
                &&& !risen ==> final(self).hull == old(self).hull
            },
            old(self).rebuild_timer <= 0 ==> final(self).hull == old(self).hull && final(self).rebuild_timer
                == old(self).rebuild_timer,
            final(spawned)@.len() == old(spawned)@.len() ==> final(self).cursor == old(self).cursor,
            final(spawned)@.len() != old(spawned)@.len() ==> {
                let shot = final(spawned)@.last();
                &&& final(spawned)@.len() == old(spawned)@.len() + 1
                &&& old(self).rebuild_timer <= 0 && w.gun_cooldown <= 0
                &&& final(self).gun_cooldown == rules.sentinel_gun.cooldown
                &&& final(self).cursor == if old(self).cursor < usize::MAX {
                    old(self).cursor + 1
                } else {
                    0
                }
                &&& shot.kind == ProjectileKind::Bullet && shot.owner == owner
                &&& shot.yaw == final(self).turret_yaw
                &&& shot.speed == rules.sentinel_gun.speed && shot.life == rules.sentinel_gun.life
                &&& shot.alt == 0
            },
            *final(self) == old(self).after_watch(rules, owner, targets@, w),
            final(spawned)@ == old(spawned)@ + old(self).shell(rules, owner, targets@, w),
            risen == old(self).rises(w),
    {
        if !self.standing() {
            self.rebuild_timer = w.rebuild_timer;
            if self.standing() {
                self.hull = rules.sentinel_hull;
                return true;
            }
            return false;
        }
        self.gun_cooldown = w.gun_cooldown;

        let mut reach: Vec<usize> = Vec::new();
        let mut k: usize = 0;
        while k < targets.len()
            invariant
                k <= targets@.len(),
                w.ranges@.len() == targets@.len(),
                reach@.len() == in_reach(rules, owner, targets@, w.ranges@, k as nat).len(),
                forall|j: int|
                    0 <= j < reach@.len() ==> #[trigger] reach@[j] < targets@.len() && reach@[j] as int
                        == in_reach(rules, owner, targets@, w.ranges@, k as nat)[j],
            decreases targets.len() - k,
        {
            if targets[k].player != owner && targets[k].what != Hittable::Sentinel && w.ranges[k]
                <= rules.sentinel_range {
                reach.push(k);
            }
            k = k + 1;
        }
        if reach.len() == 0 {
            return false;
        }
        let at = self.cursor % reach.len();
        let slew = w.slews[reach[at]];
        self.turret_yaw = slew.yaw;
        if self.gun_cooldown <= 0 && slew.off < AIM_TOLERANCE {
            self.gun_cooldown = rules.sentinel_gun.cooldown;
            self.cursor = self.cursor.wrapping_add(1);
            spawned.push(
                Projectile {
                    id: 0,
                    kind: ProjectileKind::Bullet,
                    owner,
                    pos: slew.muzzle,
                    yaw: slew.yaw,
                    speed: rules.sentinel_gun.speed,
                    life: rules.sentinel_gun.life,
                    alt: 0,
                },
            );
        }
        false
    }
}

/// The number `k` places after `first`, round the end of the range.
pub open spec fn number_after(first: u16, k: int) -> u16 {
    ((first + k) % 0x1_0000) as u16
}

/// New projectiles with their numbers on.
pub open spec fn numbered(shells: Seq<Projectile>, first: u16) -> Seq<Projectile> {
    Seq::new(shells.len(), |k: int| Projectile { id: number_after(first, k), ..shells[k] })
}

/// The players once every gun has fired.
pub open spec fn players_after_firing(
    rules: &Rules,
    targets: Seq<Target>,
    players: Seq<Option<Player>>,
    sights: Seq<Sights>,
) -> Seq<Option<Player>> {
    Seq::new(
        players.len(),
        |i: int|
            match players[i] {
                Some(p) if !p.eliminated => Some(p.after_firing(rules, targets, &sights[i])),
                other => other,
            },
    )
}

/// What left everybody's barrels, in slot order.
pub open spec fn all_fired(
    rules: &Rules,
    targets: Seq<Target>,
    players: Seq<Option<Player>>,
    sights: Seq<Sights>,
    n: nat,
) -> Seq<Projectile> {
    gathered(
        n,
        |i: int|
            match players[i] {
                Some(p) if !p.eliminated => p.fired(rules, targets, &sights[i]),
                _ => Seq::empty(),
            },
    )
}

/// The players once every emplacement has watched for a tick.
pub open spec fn players_after_watch(
    rules: &Rules,
    targets: Seq<Target>,
    players: Seq<Option<Player>>,
    watches: Seq<Watch>,
) -> Seq<Option<Player>> {
    Seq::new(
        players.len(),
        |i: int|
            match players[i] {
                Some(p) if !p.eliminated => Some(
                    Player {
                        sentinel: p.sentinel.after_watch(rules, p.id, targets, &watches[i]),
                        ..p
                    },
                ),
                other => other,
            },
    )
}

/// The shells every emplacement fired, in slot order.
pub open spec fn sentinel_shells(
    rules: &Rules,
    targets: Seq<Target>,
    players: Seq<Option<Player>>,
    watches: Seq<Watch>,
    n: nat,
) -> Seq<Projectile> {
    gathered(
        n,
        |i: int|
            match players[i] {
                Some(p) if !p.eliminated => p.sentinel.shell(rules, p.id, targets, &watches[i]),
                _ => Seq::empty(),
            },
    )
}

/// The emplacements that came back, in slot order.
pub open spec fn sentinels_risen(
    players: Seq<Option<Player>>,
    watches: Seq<Watch>,
    n: nat,
) -> Seq<GameEvent> {
    gathered(
        n,
        |i: int|
            match players[i] {
                Some(p) => listed_if(
                    !p.eliminated && p.sentinel.rises(&watches[i]),
                    GameEvent::SentinelRebuilt { player: p.id },
                ),
                None => Seq::empty(),
            },
    )
}

/// What firing everything that is due does to a match.
pub open spec fn weapons_outcome(before: &Game, after: &Game, sights: Seq<Sights>) -> bool {
    let targets = ground_targets(&before.rules, before.players@);
    let spawned = all_fired(
        &before.rules,
        targets,
        before.players@,
        sights,
        sights.len(),
    );
    &&& *after == Game {
        players: after.players,
        projectiles: after.projectiles,
        next_projectile_id: number_after(
            before.next_projectile_id,
            spawned.len() as int,
        ),
        ..*before
    }
    &&& after.players@ =~= players_after_firing(
        &before.rules,
        targets,
        before.players@,
        sights,
    )
    &&& after.projectiles@ =~= before.projectiles@ + numbered(
        spawned,
        before.next_projectile_id,
    )
}

/// What a tick of watching does to a match.
pub open spec fn sentinels_outcome(before: &Game, after: &Game, watches: Seq<Watch>) -> bool {
    let targets = ground_targets(&before.rules, before.players@);
    let spawned = sentinel_shells(
        &before.rules,
        targets,
        before.players@,
        watches,
        watches.len(),
    );
    &&& *after == Game {
        players: after.players,
        projectiles: after.projectiles,
        events: after.events,
        next_projectile_id: number_after(
            before.next_projectile_id,
            spawned.len() as int,
        ),
        ..*before
    }
    &&& after.players@ =~= players_after_watch(
        &before.rules,
        targets,
        before.players@,
        watches,
    )
    &&& after.projectiles@ =~= before.projectiles@ + numbered(
        spawned,
        before.next_projectile_id,
    )
    &&& after.events@ =~= before.events@ + sentinels_risen(
        before.players@,
        watches,
        watches.len(),
    )
}

impl Game {
    /// Puts new projectiles into the air, each with a number of its own.
    fn launch(&mut self, spawned: Vec<Projectile>)
        ensures
            *final(self) == (Game {
                projectiles: final(self).projectiles,
                next_projectile_id: number_after(
                    old(self).next_projectile_id,
                    spawned@.len() as int,
                ),
                ..*old(self)
            }),
            final(self).projectiles@ == old(self).projectiles@ + numbered(
                spawned@,
                old(self).next_projectile_id,
            ),
    {
        let mut i: usize = 0;
        while i < spawned.len()
            invariant
                i <= spawned@.len(),
                *self == (Game {
                    projectiles: self.projectiles,
                    next_projectile_id: number_after(old(self).next_projectile_id, i as int),
                    ..*old(self)
                }),
                self.projectiles@ =~= old(self).projectiles@ + numbered(
                    spawned@,
                    old(self).next_projectile_id,
                ).take(i as int),
            decreases spawned.len() - i,
        {
            let mut shell = spawned[i];
            shell.id = self.next_projectile_id;
            self.next_projectile_id = self.next_projectile_id.wrapping_add(1);
            self.projectiles.push(shell);
            i = i + 1;
        }
        assert(numbered(spawned@, old(self).next_projectile_id).take(i as int) =~= numbered(
            spawned@,
            old(self).next_projectile_id,
        ));
    }

    /// Fires every gun that is due to fire. `sights` holds what each slot's
    /// guns see of [`Game::collect_targets`].
    pub fn step_weapons(&mut self, sights: &Vec<Sights>)
        requires
            old(self).wf(),
            sights@.len() == old(self).players@.len(),
            forall|i: int|
                0 <= i < sights@.len() ==> (#[trigger] sights@[i]).ranges@.len() == ground_targets(
                    &old(self).rules,
                    old(self).players@,
                ).len() && sights@[i].slews@.len() == sights@[i].ranges@.len(),
        ensures
            forall|i: int|
                0 <= i < old(self).players@.len() && old(self).players@[i] is Some ==> {
                    let (p, q) = (old(self).players@[i]->0, (#[trigger] final(self).players@[i])->0);
                    &&& final(self).players@[i] is Some
                    &&& p.eliminated ==> q == p
                    &&& !p.eliminated ==> q.missiles + how_many(
                        p.fired(
                            &old(self).rules,
                            ground_targets(&old(self).rules, old(self).players@),
                            &sights@[i],
                        ),
                        ProjectileKind::Missile,
                    ) == p.missiles
                },
            old(self).projectiles@.len() <= final(self).projectiles@.len(),
            forall|k: int|
                0 <= k < old(self).projectiles@.len() ==> #[trigger] final(self).projectiles@[k] == old(
                    self,
                ).projectiles@[k],
            final(self).wf(),
            weapons_outcome(old(self), final(self), sights@),
    {
        let targets = self.collect_targets();
        let mut spawned: Vec<Projectile> = Vec::new();
        let ghost after = players_after_firing(&self.rules, targets@, self.players@, sights@);
        let mut i: usize = 0;
        while i < self.players.len()
            invariant
                i <= self.players@.len(),
                old(self).wf(),
                self.players@.len() == old(self).players@.len(),
                sights@.len() == old(self).players@.len(),
                targets@ == ground_targets(&old(self).rules, old(self).players@),
                forall|k: int|
                    0 <= k < sights@.len() ==> (#[trigger] sights@[k]).ranges@.len() == targets@.len()
                        && sights@[k].slews@.len() == sights@[k].ranges@.len(),
                after == players_after_firing(
                    &old(self).rules,
                    targets@,
                    old(self).players@,
                    sights@,
                ),
                *self == (Game { players: self.players, ..*old(self) }),
                forall|k: int| 0 <= k < i ==> #[trigger] self.players@[k] == after[k],
                forall|k: int|
                    i <= k < self.players@.len() ==> #[trigger] self.players@[k] == old(
                        self,
                    ).players@[k],
                spawned@ == all_fired(
                    &old(self).rules,
                    targets@,
                    old(self).players@,
                    sights@,
                    i as nat,
                ),
            decreases self.players.len() - i,
        {
            assert(sights@[i as int].ranges@.len() == targets@.len());
            if let Some(p) = self.players[i].as_mut() {
                if !p.eliminated {
                    p.fire(&self.rules, &targets, &sights[i], &mut spawned);
                }
            }
            i = i + 1;
        }
        assert(self.players@ =~= after);
        self.launch(spawned);
        proof {
            assert forall|i: int|
                0 <= i < old(self).players@.len() && old(
                    self,
                ).players@[i] is Some && !old(self).players@[i]->0.eliminated implies {
                let (p, q) = (old(self).players@[i]->0, (#[trigger] self.players@[i])->0);
                q.missiles + how_many(
                    p.fired(&old(self).rules, targets@, &sights@[i]),
                    ProjectileKind::Missile,
                ) == p.missiles
            } by {
                lemma_missiles_fired_are_missiles_spent(
                    old(self).players@[i]->0,
                    &old(self).rules,
                    targets@,
                    &sights@[i],
                );
            }
        }
    }

    /// Runs the emplacements: pick a target, slew onto it, fire.
    pub fn step_sentinels(&mut self, watches: &Vec<Watch>)
        requires
            old(self).wf(),
            watches@.len() == old(self).players@.len(),
            forall|i: int|
                0 <= i < watches@.len() ==> (#[trigger] watches@[i]).ranges@.len()
                    == ground_targets(&old(self).rules, old(self).players@).len()
                    && watches@[i].slews@.len() == watches@[i].ranges@.len(),
        ensures
            forall|i: int|
                0 <= i < old(self).players@.len() && old(self).players@[i] is Some ==> {
                    let (p, q) = (old(self).players@[i]->0, (#[trigger] final(self).players@[i])->0);
                    &&& final(self).players@[i] is Some
                    &&& q == Player { sentinel: q.sentinel, ..p }
                    &&& p.eliminated ==> q == p
                    &&& !p.eliminated ==> q.sentinel == p.sentinel.after_watch(
                        &old(self).rules,
                        p.id,
                        ground_targets(&old(self).rules, old(self).players@),
                        &watches@[i],
                    )
                },
            old(self).projectiles@.len() <= final(self).projectiles@.len(),
            forall|k: int|
                0 <= k < old(self).projectiles@.len() ==> #[trigger] final(self).projectiles@[k] == old(
                    self,
                ).projectiles@[k],
            final(self).wf(),
            sentinels_outcome(old(self), final(self), watches@),
    {
        let targets = self.collect_targets();
        let mut spawned: Vec<Projectile> = Vec::new();
        let ghost after = players_after_watch(&self.rules, targets@, self.players@, watches@);
        let mut i: usize = 0;
        while i < self.players.len()
            invariant
                i <= self.players@.len(),
                old(self).wf(),
                self.players@.len() == old(self).players@.len(),
                watches@.len() == old(self).players@.len(),
                targets@ == ground_targets(&old(self).rules, old(self).players@),
                forall|k: int|
                    0 <= k < watches@.len() ==> (#[trigger] watches@[k]).ranges@.len()
                        == targets@.len() && watches@[k].slews@.len() == watches@[k].ranges@.len(),
                after == players_after_watch(
                    &old(self).rules,
                    targets@,
                    old(self).players@,
                    watches@,
                ),
                *self == (Game { players: self.players, events: self.events, ..*old(self) }),
                forall|k: int| 0 <= k < i ==> #[trigger] self.players@[k] == after[k],
                forall|k: int|
                    i <= k < self.players@.len() ==> #[trigger] self.players@[k] == old(
                        self,
                    ).players@[k],
                spawned@ == sentinel_shells(
                    &old(self).rules,
                    targets@,
                    old(self).players@,
                    watches@,
                    i as nat,
                ),
                self.events@ =~= old(self).events@ + sentinels_risen(
                    old(self).players@,
                    watches@,
                    i as nat,
                ),
            decreases self.players.len() - i,
        {
            assert(watches@[i as int].ranges@.len() == targets@.len());
            let mut risen: Option<u8> = None;
            if let Some(p) = self.players[i].as_mut() {
                if !p.eliminated {
                    let owner: u8 = p.id;
                    if p.sentinel.watch(&self.rules, owner, &targets, &watches[i], &mut spawned) {
                        risen = Some(owner);
                    }
                }
            }
            if let Some(player) = risen {
                self.events.push(GameEvent::SentinelRebuilt { player });
            }
            i = i + 1;
        }
        assert(self.players@ =~= after);
        self.launch(spawned);
    }
}

/// How many projectiles of a kind there are.
pub open spec fn how_many(shells: Seq<Projectile>, kind: ProjectileKind) -> nat
    decreases shells.len(),
{
    if shells.len() == 0 {
        0
    } else {
        how_many(shells.drop_last(), kind) + if shells.last().kind == kind {
            1nat
        } else {
            0nat
        }
    }
}

/// Two lists hold what each of them holds.
pub proof fn lemma_how_many_in_two(a: Seq<Projectile>, b: Seq<Projectile>, kind: ProjectileKind)
    ensures
        how_many(a + b, kind) == how_many(a, kind) + how_many(b, kind),
    decreases b.len(),
{
    if b.len() == 0 {
        assert(a + b =~= a);
    } else {
        assert((a + b).drop_last() =~= a + b.drop_last());
        lemma_how_many_in_two(a, b.drop_last(), kind);
    }
}

/// Missiles are neither made nor lost in firing: every one that leaves the rack
/// is in the air, and every one in the air left the rack.
pub proof fn lemma_missiles_fired_are_missiles_spent(
    p: Player,
    rules: &Rules,
    targets: Seq<Target>,
    s: &Sights,
)
    ensures
        p.after_firing(rules, targets, s).missiles + how_many(
            p.fired(rules, targets, s),
            ProjectileKind::Missile,
        ) == p.missiles,
{
    lemma_each_barrel_fires_once(p, rules, targets, s);
}

/// Each barrel fires once or not at all, and only with its own trigger held by
/// whoever drives that vehicle, its own clock run down and, for a missile, one
/// left in the rack.
#[verifier::rlimit(40)]
pub proof fn lemma_each_barrel_fires_once(
    p: Player,
    rules: &Rules,
    targets: Seq<Target>,
    s: &Sights,
)
    ensures
        ({
            let shots = p.fired(rules, targets, s);
            let input = p.effective_input_spec();
            let tank = input.controlling == VehicleSlot::Tank && p.tank is Some;
            let plane = input.controlling == VehicleSlot::Plane && p.plane is Some;
            let gun = tank && input.fire_primary && p.tank->0.gun_cooldown <= 0;
            let turret = p.defends(rules, targets, s);
            &&& how_many(shots, ProjectileKind::Missile) == if tank && input.fire_secondary
                && p.tank->0.missile_cooldown <= 0 && p.missiles > 0 {
                1nat
            } else {
                0nat
            }
            &&& how_many(shots, ProjectileKind::Bomb) == if plane && input.fire_primary
                && p.plane->0.gun_cooldown <= 0 {
                1nat
            } else {
                0nat
            }
            &&& how_many(shots, ProjectileKind::Cannon) == if plane && input.fire_secondary
                && p.plane->0.missile_cooldown <= 0 {
                1nat
            } else {
                0nat
            }
            &&& how_many(shots, ProjectileKind::Bullet) == (if gun {
                1nat
            } else {
                0nat
            }) + (if turret {
                1nat
            } else {
                0nat
            })
        }),
{
    let (a, b, c, d, e) = p.barrels(rules, targets, s);
    assert(p.fired(rules, targets, s) == a + b + c + d + e);
    lemma_five_lists(a, b, c, d, e, ProjectileKind::Missile);
    lemma_five_lists(a, b, c, d, e, ProjectileKind::Bomb);
    lemma_five_lists(a, b, c, d, e, ProjectileKind::Cannon);
    lemma_five_lists(a, b, c, d, e, ProjectileKind::Bullet);
}

impl Player {
    /// What leaves each barrel: the tank's gun, its missile rack, the bomb bay,
    /// the cannon, and the turret on the miner.
    spec fn barrels(self, rules: &Rules, targets: Seq<Target>, s: &Sights) -> (
        Seq<Projectile>,
        Seq<Projectile>,
        Seq<Projectile>,
        Seq<Projectile>,
        Seq<Projectile>,
    ) {
        let k = self.engages(rules, targets, s)->0;
        (
            listed_if(
                self.fires_gun(),
                Projectile {
                    id: 0,
                    kind: ProjectileKind::Bullet,
                    owner: self.id,
                    pos: s.muzzle,
                    yaw: self.tank->0.turret_yaw,
                    speed: rules.tank_gun.speed,
                    life: s.shell_life,
                    alt: 0,
                },
            ),
            listed_if(
                self.fires_missile(),
                Projectile {
                    id: 0,
                    kind: ProjectileKind::Missile,
                    owner: self.id,
                    pos: s.muzzle,
                    yaw: self.tank->0.turret_yaw,
                    speed: rules.missile.speed,
                    life: rules.missile.life,
                    alt: 0,
                },
            ),
            listed_if(
                self.drops_bomb(),
                Projectile {
                    id: 0,
                    kind: ProjectileKind::Bomb,
                    owner: self.id,
                    pos: self.plane->0.mv.pos,
                    yaw: self.plane->0.mv.yaw,
                    speed: self.plane->0.mv.speed,
                    life: s.fall,
                    alt: 0,
                },
            ),
            listed_if(
                self.fires_cannon(),
                Projectile {
                    id: 0,
                    kind: ProjectileKind::Cannon,
                    owner: self.id,
                    pos: self.plane->0.mv.pos,
                    yaw: self.plane->0.mv.yaw,
                    speed: rules.cannon.speed,
                    life: rules.cannon.life,
                    alt: self.plane->0.mv.alt,
                },
            ),
            listed_if(
                self.defends(rules, targets, s),
                Projectile {
                    id: 0,
                    kind: ProjectileKind::Bullet,
                    owner: self.id,
                    pos: s.slews@[k].muzzle,
                    yaw: s.slews@[k].yaw,
                    speed: rules.auto_turret_gun.speed,
                    life: rules.auto_turret_gun.life,
                    alt: 0,
                },
            ),
        )
    }
}

proof fn lemma_five_lists(
    a: Seq<Projectile>,
    b: Seq<Projectile>,
    c: Seq<Projectile>,
    d: Seq<Projectile>,
    e: Seq<Projectile>,
    kind: ProjectileKind,
)
    requires
        a.len() <= 1,
        b.len() <= 1,
        c.len() <= 1,
        d.len() <= 1,
        e.len() <= 1,
    ensures
        how_many(a + b + c + d + e, kind) == counted(a, kind) + counted(b, kind) + counted(c, kind)
            + counted(d, kind) + counted(e, kind),
{
    lemma_how_many_in_two(a, b, kind);
    lemma_how_many_in_two(a + b, c, kind);
    lemma_how_many_in_two(a + b + c, d, kind);
    lemma_how_many_in_two(a + b + c + d, e, kind);
    lemma_one_counted(a, kind);
    lemma_one_counted(b, kind);
    lemma_one_counted(c, kind);
    lemma_one_counted(d, kind);
    lemma_one_counted(e, kind);
}

spec fn counted(a: Seq<Projectile>, kind: ProjectileKind) -> nat {
    if a.len() == 1 && a[0].kind == kind {
        1
    } else {
        0
    }
}

proof fn lemma_one_counted(a: Seq<Projectile>, kind: ProjectileKind)
    requires
        a.len() <= 1,
    ensures
        how_many(a, kind) == counted(a, kind),
{
    if a.len() == 1 {
        assert(a.drop_last() =~= Seq::<Projectile>::empty());
        assert(how_many(a.drop_last(), kind) == 0);
    }
}

/// Whatever leaves a barrel belongs to whoever fired it.
pub proof fn lemma_shots_are_the_shooters(
    p: Player,
    rules: &Rules,
    targets: Seq<Target>,
    s: &Sights,
)
    ensures
        forall|k: int|
            0 <= k < p.fired(rules, targets, s).len() ==> (#[trigger] p.fired(
                rules,
                targets,
                s,
            )[k]).owner == p.id,
{
}

/// A shot leaves the barrel it was fired from: a shell and a missile from the
/// tank's muzzle the way the turret points, a bomb and a cannon round from the
/// aircraft the way it flies. A bomb keeps the aircraft's own speed, and only a
/// cannon round is up at the aircraft's height.
pub proof fn lemma_a_shot_leaves_its_barrel(
    p: Player,
    rules: &Rules,
    targets: Seq<Target>,
    s: &Sights,
    shot: Projectile,
)
    requires
        p.fired(rules, targets, s).contains(shot),
    ensures
        match shot.kind {
            ProjectileKind::Missile => {
                &&& shot.pos == s.muzzle && shot.yaw == p.tank->0.turret_yaw
                &&& shot.speed == rules.missile.speed && shot.life == rules.missile.life
                &&& shot.alt == 0
            },
            ProjectileKind::Bomb => {
                &&& shot.pos == p.plane->0.mv.pos && shot.yaw == p.plane->0.mv.yaw
                &&& shot.speed == p.plane->0.mv.speed && shot.life == s.fall
                &&& shot.alt == 0
            },
            ProjectileKind::Cannon => {
                &&& shot.pos == p.plane->0.mv.pos && shot.yaw == p.plane->0.mv.yaw
                &&& shot.speed == rules.cannon.speed && shot.life == rules.cannon.life
                &&& shot.alt == p.plane->0.mv.alt
            },
            ProjectileKind::Bullet => {
                &&& shot.alt == 0
                &&& {
                    ||| shot.pos == s.muzzle && shot.yaw == p.tank->0.turret_yaw && shot.speed
                        == rules.tank_gun.speed && shot.life == s.shell_life
                    ||| shot.yaw == p.after_firing(rules, targets, s).miner->0.turret_yaw
                        && shot.speed == rules.auto_turret_gun.speed && shot.life
                        == rules.auto_turret_gun.life
                }
            },
        },
{
    let shots = p.fired(rules, targets, s);
    let k = choose|k: int| 0 <= k < shots.len() && shots[k] == shot;
    assert(shots[k] == shot);
}

/// Firing spends missiles and starts clocks and turns the miner's turret. It
/// does nothing else to anybody.
pub proof fn lemma_firing_only_fires(p: Player, rules: &Rules, targets: Seq<Target>, s: &Sights)
    ensures
        ({
            let q = p.after_firing(rules, targets, s);
            &&& q == Player {
                missiles: q.missiles,
                tank: q.tank,
                miner: q.miner,
                plane: q.plane,
                ..p
            }
            &&& q.tank is Some <==> p.tank is Some
            &&& q.miner is Some <==> p.miner is Some
            &&& q.plane is Some <==> p.plane is Some
            &&& p.tank is Some ==> q.tank->0 == Vehicle {
                gun_cooldown: q.tank->0.gun_cooldown,
                missile_cooldown: q.tank->0.missile_cooldown,
                ..p.tank->0
            }
            &&& p.plane is Some ==> q.plane->0 == Vehicle {
                gun_cooldown: q.plane->0.gun_cooldown,
                missile_cooldown: q.plane->0.missile_cooldown,
                ..p.plane->0
            }
            &&& p.miner is Some ==> q.miner->0 == Vehicle {
                gun_cooldown: q.miner->0.gun_cooldown,
                turret_yaw: q.miner->0.turret_yaw,
                ..p.miner->0
            }
        }),
{
}

/// A barrel that has fired has its own clock to wait for, and one that has not
/// keeps the clock it had.
pub proof fn lemma_a_barrel_that_fired_waits(
    p: Player,
    rules: &Rules,
    targets: Seq<Target>,
    s: &Sights,
)
    ensures
        ({
            let q = p.after_firing(rules, targets, s);
            let shots = p.fired(rules, targets, s);
            &&& p.tank is Some ==> q.tank->0.missile_cooldown == if how_many(
                shots,
                ProjectileKind::Missile,
            ) == 1 {
                rules.missile.cooldown
            } else {
                p.tank->0.missile_cooldown
            }
            &&& p.plane is Some ==> q.plane->0.gun_cooldown == if how_many(
                shots,
                ProjectileKind::Bomb,
            ) == 1 {
                rules.bomb_cooldown
            } else {
                p.plane->0.gun_cooldown
            }
            &&& p.plane is Some ==> q.plane->0.missile_cooldown == if how_many(
                shots,
                ProjectileKind::Cannon,
            ) == 1 {
                rules.cannon.cooldown
            } else {
                p.plane->0.missile_cooldown
            }
            &&& p.tank is Some && q.tank->0.gun_cooldown != p.tank->0.gun_cooldown
                ==> q.tank->0.gun_cooldown == rules.tank_gun.cooldown
            &&& p.miner is Some && q.miner->0.gun_cooldown != p.miner->0.gun_cooldown
                ==> q.miner->0.gun_cooldown == rules.auto_turret_gun.cooldown
            &&& rules.tank_gun.cooldown > 0 && rules.auto_turret_gun.cooldown > 0 ==> how_many(
                shots,
                ProjectileKind::Bullet,
            ) == (if p.tank is Some && q.tank->0.gun_cooldown > 0 && p.tank->0.gun_cooldown <= 0 {
                1nat
            } else {
                0nat
            }) + (if p.miner is Some && q.miner->0.gun_cooldown > 0 && p.miner->0.gun_cooldown
                <= 0 {
                1nat
            } else {
                0nat
            })
        }),
{
    lemma_each_barrel_fires_once(p, rules, targets, s);
}

/// Nobody who is not shooting shoots: with no trigger held and no turret on the
/// miner, nothing leaves and nothing changes.
pub proof fn lemma_hands_off_the_trigger(
    p: Player,
    rules: &Rules,
    targets: Seq<Target>,
    s: &Sights,
)
    requires
        !p.effective_input_spec().fire_primary,
        !p.effective_input_spec().fire_secondary,
        !PowerUp::AutoTurret.held_spec(p.powerups),
    ensures
        p.fired(rules, targets, s).len() == 0,
        p.after_firing(rules, targets, s) == p,
{
}

/// The turret on a miner turns to the nearest thing of anybody else's in its
/// range, and to nothing only when nothing is in range.
pub proof fn lemma_a_turret_turns_to_the_nearest(
    rules: &Rules,
    owner: u8,
    targets: Seq<Target>,
    ranges: Seq<Real>,
)
    requires
        ranges.len() == targets.len(),
    ensures
        match least_of(turret_keys(rules, owner, targets, ranges)) {
            Some(j) => {
                &&& 0 <= j < targets.len()
                &&& targets[j].player != owner
                &&& ranges[j] <= rules.auto_turret_range
                &&& forall|k: int|
                    0 <= k < targets.len() && (#[trigger] targets[k]).player != owner ==> ranges[j]
                        <= ranges[k]
            },
            None => forall|k: int|
                0 <= k < targets.len() ==> (#[trigger] targets[k]).player == owner || ranges[k]
                    > rules.auto_turret_range,
        },
{
    let keys = turret_keys(rules, owner, targets, ranges);
    lemma_least(keys);
    assert forall|k: int|
        0 <= k < targets.len() && (#[trigger] targets[k]).player != owner && ranges[k]
            <= rules.auto_turret_range implies keys[k] == Some(ranges[k]) by {}
}

/// The turret on a miner defends it: with the upgrade, a working miner and an
/// enemy in range it turns to the nearest, and shoots once it is on and ready.
pub proof fn lemma_a_miner_defends_itself(
    p: Player,
    rules: &Rules,
    targets: Seq<Target>,
    s: &Sights,
    k: int,
)
    requires
        s.ranges@.len() == targets.len(),
        s.slews@.len() == targets.len(),
        PowerUp::AutoTurret.held_spec(p.powerups),
        p.miner is Some,
        !p.miner->0.disabled,
        0 <= k < targets.len(),
        targets[k].player != p.id,
        s.ranges@[k] <= rules.auto_turret_range,
    ensures
        ({
            let q = p.after_firing(rules, targets, s);
            exists|j: int|
                #![trigger s.slews@[j]]
                0 <= j < targets.len() && targets[j].player != p.id && s.ranges@[j] <= s.ranges@[k]
                    && q.miner->0.turret_yaw == s.slews@[j].yaw && (p.miner->0.gun_cooldown <= 0
                    && s.slews@[j].off < AIM_TOLERANCE <==> p.defends(rules, targets, s))
        }),
{
    lemma_a_turret_turns_to_the_nearest(rules, p.id, targets, s.ranges@);
    let j = least_of(turret_keys(rules, p.id, targets, s.ranges@))->0;
    let q = p.after_firing(rules, targets, s);
    assert(targets[k].player != p.id);
    assert(p.engages(rules, targets, s) == Some(j));
    assert(0 <= j < targets.len() && targets[j].player != p.id && s.ranges@[j] <= s.ranges@[k]);
    assert(q.miner->0.turret_yaw == s.slews@[j].yaw);
}

/// A wreck's turret, or one that was never bought, does nothing.
pub proof fn lemma_no_turret_no_defence(p: Player, rules: &Rules, targets: Seq<Target>, s: &Sights)
    requires
        !PowerUp::AutoTurret.held_spec(p.powerups) || p.miner is None || p.miner->0.disabled,
    ensures
        !p.defends(rules, targets, s),
        p.after_firing(rules, targets, s).miner == p.miner,
{
}

/// An emplacement engages an enemy vehicle in its range, never an emplacement
/// and never its owner's, and engages somebody as soon as there is somebody.
pub proof fn lemma_an_emplacement_engages_an_enemy(
    rules: &Rules,
    owner: u8,
    targets: Seq<Target>,
    w: &Watch,
    cursor: usize,
)
    requires
        w.ranges@.len() == targets.len(),
    ensures
        match engaged(rules, owner, targets, w, cursor) {
            Some(k) => {
                &&& 0 <= k < targets.len()
                &&& targets[k].player != owner
                &&& targets[k].what != Hittable::Sentinel
                &&& w.ranges@[k] <= rules.sentinel_range
            },
            None => forall|k: int|
                0 <= k < targets.len() ==> (#[trigger] targets[k]).player == owner
                    || targets[k].what == Hittable::Sentinel || w.ranges@[k]
                    > rules.sentinel_range,
        },
{
    let n = targets.len();
    let f = |k: int|
        listed_if(
            targets[k].player != owner && targets[k].what != Hittable::Sentinel && w.ranges@[k]
                <= rules.sentinel_range,
            k,
        );
    let reach = in_reach(rules, owner, targets, w.ranges@, n);
    assert(reach == gathered(n, f));
    if reach.len() > 0 {
        let at = cursor as int % reach.len() as int;
        let k = reach[at];
        assert(reach.contains(k));
        lemma_gathered_from(n, f, k);
        let i = choose|i: int| 0 <= i < n && (#[trigger] f(i)).contains(k);
        let own = f(i);
        let z = choose|z: int| 0 <= z < own.len() && own[z] == k;
        assert(own[z] == k && k == i);
    } else {
        assert forall|k: int| 0 <= k < targets.len() implies (#[trigger] targets[k]).player
            == owner || targets[k].what == Hittable::Sentinel || w.ranges@[k]
            > rules.sentinel_range by {
            if targets[k].player != owner && targets[k].what != Hittable::Sentinel && w.ranges@[k]
                <= rules.sentinel_range {
                assert(f(k)[0] == k);
                lemma_gathered_holds(n, f, k, k);
            }
        }
    }
}

/// No attacker is left unmolested: whichever enemy is in range, there is a place
/// in the round at which the emplacement engages it.
pub proof fn lemma_every_attacker_has_a_turn(
    rules: &Rules,
    owner: u8,
    targets: Seq<Target>,
    w: &Watch,
    k: int,
)
    requires
        w.ranges@.len() == targets.len(),
        targets.len() <= usize::MAX,
        0 <= k < targets.len(),
        targets[k].player != owner,
        targets[k].what != Hittable::Sentinel,
        w.ranges@[k] <= rules.sentinel_range,
    ensures
        exists|cursor: usize|
            cursor < targets.len() && engaged(rules, owner, targets, w, cursor) == Some(k),
{
    let n = targets.len();
    let f = |k: int|
        listed_if(
            targets[k].player != owner && targets[k].what != Hittable::Sentinel && w.ranges@[k]
                <= rules.sentinel_range,
            k,
        );
    let reach = in_reach(rules, owner, targets, w.ranges@, n);
    assert(reach == gathered(n, f));
    assert(f(k)[0] == k);
    lemma_gathered_holds(n, f, k, k);
    let at = choose|at: int| 0 <= at < reach.len() && reach[at] == k;
    lemma_each_is_in_reach_once(rules, owner, targets, w.ranges@, n);
    vstd::arithmetic::div_mod::lemma_small_mod(at as nat, reach.len());
    assert(engaged(rules, owner, targets, w, at as usize) == Some(k));
}

/// The ones in reach come in target order, each once.
pub proof fn lemma_each_is_in_reach_once(
    rules: &Rules,
    owner: u8,
    targets: Seq<Target>,
    ranges: Seq<Real>,
    n: nat,
)
    ensures
        in_reach(rules, owner, targets, ranges, n).len() <= n,
        forall|i: int|
            0 <= i < in_reach(rules, owner, targets, ranges, n).len() ==> 0 <= #[trigger] in_reach(
                rules,
                owner,
                targets,
                ranges,
                n,
            )[i] < n,
        forall|i: int, j: int|
            0 <= i < j < in_reach(rules, owner, targets, ranges, n).len() ==> #[trigger] in_reach(
                rules,
                owner,
                targets,
                ranges,
                n,
            )[i] < #[trigger] in_reach(rules, owner, targets, ranges, n)[j],
    decreases n,
{
    if n > 0 {
        lemma_each_is_in_reach_once(rules, owner, targets, ranges, (n - 1) as nat);
        let before = in_reach(rules, owner, targets, ranges, (n - 1) as nat);
        let all = in_reach(rules, owner, targets, ranges, n);
        assert(all =~= before || all =~= before.push(n - 1));
    }
}

/// An emplacement turns to whoever it engages, and takes its shot when it is on
/// target and ready. A shot moves it on to the next; anything else does not.
pub proof fn lemma_an_emplacement_commits(
    sentinel: Sentinel,
    rules: &Rules,
    owner: u8,
    targets: Seq<Target>,
    w: &Watch,
    k: int,
)
    requires
        sentinel.rebuild_timer <= 0,
        engaged(rules, owner, targets, w, sentinel.cursor) == Some(k),
    ensures
        ({
            let after = sentinel.after_watch(rules, owner, targets, w);
            let shots = sentinel.shell(rules, owner, targets, w);
            &&& after.turret_yaw == w.slews@[k].yaw
            &&& shots.len() == if w.gun_cooldown <= 0 && w.slews@[k].off < AIM_TOLERANCE {
                1nat
            } else {
                0nat
            }
            &&& shots.len() == 1 ==> shots[0].pos == w.slews@[k].muzzle && shots[0].yaw
                == w.slews@[k].yaw && after.gun_cooldown == rules.sentinel_gun.cooldown
                && after.cursor != sentinel.cursor
            &&& shots.len() == 0 ==> after.gun_cooldown == w.gun_cooldown && after.cursor
                == sentinel.cursor
        }),
{
}

/// An emplacement with nobody in reach waits with its turret where it was, and
/// rubble does not shoot.
pub proof fn lemma_an_emplacement_waits(
    sentinel: Sentinel,
    rules: &Rules,
    owner: u8,
    targets: Seq<Target>,
    w: &Watch,
)
    requires
        sentinel.rebuild_timer > 0 || engaged(rules, owner, targets, w, sentinel.cursor) is None,
    ensures
        ({
            let after = sentinel.after_watch(rules, owner, targets, w);
            &&& sentinel.shell(rules, owner, targets, w).len() == 0
            &&& after.turret_yaw == sentinel.turret_yaw && after.cursor == sentinel.cursor
            &&& sentinel.rebuild_timer > 0 ==> after.gun_cooldown == sentinel.gun_cooldown
            &&& sentinel.rebuild_timer <= 0 ==> after.gun_cooldown == w.gun_cooldown
        }),
{
}

/// Every new projectile has a number of its own, each one after the last, and is
/// otherwise what left the barrel.
pub proof fn lemma_new_numbers_are_apart(shells: Seq<Projectile>, first: u16, i: int, j: int)
    requires
        shells.len() <= 0x1_0000,
        0 <= i < j < shells.len(),
    ensures
        numbered(shells, first)[i].id != numbered(shells, first)[j].id,
        numbered(shells, first)[0].id == first,
        j == i + 1 && numbered(shells, first)[i].id < u16::MAX ==> numbered(shells, first)[j].id
            == numbered(shells, first)[i].id + 1,
        numbered(shells, first).len() == shells.len(),
        numbered(shells, first)[i].kind == shells[i].kind,
        numbered(shells, first)[i].owner == shells[i].owner,
        numbered(shells, first)[i].pos == shells[i].pos,
        numbered(shells, first)[i].yaw == shells[i].yaw,
        numbered(shells, first)[i].speed == shells[i].speed,
        numbered(shells, first)[i].life == shells[i].life,
        numbered(shells, first)[i].alt == shells[i].alt,
        number_after(first, shells.len() as int) == number_after(
            numbered(shells, first)[shells.len() - 1].id,
            1,
        ),
{
}

/// Whatever anybody on the field fired is in the air, theirs and as it left the
/// barrel.
pub proof fn lemma_what_is_fired_flies(
    before: &Game,
    after: &Game,
    sights: Seq<Sights>,
    i: int,
    shot: Projectile,
)
    requires
        weapons_outcome(before, after, sights),
        sights.len() == before.players@.len(),
        0 <= i < before.players@.len(),
        before.players@[i] is Some,
        !before.players@[i]->0.eliminated,
        before.players@[i]->0.fired(
            &before.rules,
            ground_targets(&before.rules, before.players@),
            &sights[i],
        ).contains(shot),
    ensures
        exists|k: int|
            before.projectiles@.len() <= k < after.projectiles@.len() && same_shot(
                #[trigger] after.projectiles@[k],
                shot,
            ),
{
    let targets = ground_targets(&before.rules, before.players@);
    let players = before.players@;
    let rules = before.rules;
    let f = |i: int|
        match players[i] {
            Some(p) if !p.eliminated => p.fired(&rules, targets, &sights[i]),
            _ => Seq::empty(),
        };
    let n = sights.len();
    let all = all_fired(&rules, targets, players, sights, n);
    assert(f(i).contains(shot));
    lemma_gathered_holds(n, f, i, shot);
    assert(all == gathered(n, f));
    let k = choose|k: int| 0 <= k < all.len() && all[k] == shot;
    let at = before.projectiles@.len() + k;
    assert(after.projectiles@[at] == numbered(all, before.next_projectile_id)[k]);
    assert(same_shot(after.projectiles@[at], shot));
}

/// Whatever an emplacement on the field fired is in the air.
pub proof fn lemma_what_an_emplacement_fires_flies(
    before: &Game,
    after: &Game,
    watches: Seq<Watch>,
    i: int,
)
    requires
        sentinels_outcome(before, after, watches),
        watches.len() == before.players@.len(),
        0 <= i < before.players@.len(),
        before.players@[i] is Some,
        !before.players@[i]->0.eliminated,
    ensures
        ({
            let p = before.players@[i]->0;
            let shots = p.sentinel.shell(
                &before.rules,
                p.id,
                ground_targets(&before.rules, before.players@),
                &watches[i],
            );
            &&& shots.len() > 0 ==> exists|k: int|
                before.projectiles@.len() <= k < after.projectiles@.len() && same_shot(
                    #[trigger] after.projectiles@[k],
                    shots[0],
                )
            &&& p.sentinel.rebuild_timer > 0 && watches[i].rebuild_timer <= 0
                ==> after.events@.contains(GameEvent::SentinelRebuilt { player: p.id })
        }),
{
    let targets = ground_targets(&before.rules, before.players@);
    let players = before.players@;
    let rules = before.rules;
    let f = |i: int|
        match players[i] {
            Some(p) if !p.eliminated => p.sentinel.shell(&rules, p.id, targets, &watches[i]),
            _ => Seq::empty(),
        };
    let g = |i: int|
        match players[i] {
            Some(p) => listed_if(
                !p.eliminated && p.sentinel.rises(&watches[i]),
                GameEvent::SentinelRebuilt { player: p.id },
            ),
            None => Seq::empty(),
        };
    let n = watches.len();
    let p = players[i]->0;
    let own = f(i);
    if own.len() > 0 {
        let shot = own[0];
        assert(f(i).contains(shot));
        lemma_gathered_holds(n, f, i, shot);
        let all = sentinel_shells(&rules, targets, players, watches, n);
        assert(all == gathered(n, f));
        let k = choose|k: int| 0 <= k < all.len() && all[k] == shot;
        let at = before.projectiles@.len() + k;
        assert(after.projectiles@[at] == numbered(all, before.next_projectile_id)[k]);
        assert(same_shot(after.projectiles@[at], shot));
    }
    if p.sentinel.rebuild_timer > 0 && watches[i].rebuild_timer <= 0 {
        let e = GameEvent::SentinelRebuilt { player: p.id };
        assert(g(i)[0] == e);
        lemma_gathered_holds(n, g, i, e);
        let told = sentinels_risen(players, watches, n);
        let k = choose|k: int| 0 <= k < told.len() && told[k] == e;
        assert(after.events@[before.events@.len() + k] == e);
    }
}

/// Whether two shots differ in nothing but the number they go under.
pub open spec fn same_shot(a: Projectile, b: Projectile) -> bool {
    &&& a.kind == b.kind && a.owner == b.owner
    &&& a.pos == b.pos && a.yaw == b.yaw && a.alt == b.alt
    &&& a.speed == b.speed && a.life == b.life
}

/// An emplacement comes back on the tick its wait runs out, whole, and on no
/// other.
pub proof fn lemma_an_emplacement_comes_back(
    s: Sentinel,
    rules: &Rules,
    owner: u8,
    targets: Seq<Target>,
    w: &Watch,
)
    ensures
        s.rises(w) <==> s.rebuild_timer > 0 && w.rebuild_timer <= 0,
        s.rises(w) ==> s.after_watch(rules, owner, targets, w).hull == rules.sentinel_hull
            && s.after_watch(rules, owner, targets, w).rebuild_timer <= 0,
        !s.rises(w) ==> s.after_watch(rules, owner, targets, w).hull == s.hull,
        s.rebuild_timer > 0 ==> s.after_watch(rules, owner, targets, w).rebuild_timer
            == w.rebuild_timer && s.shell(rules, owner, targets, w).len() == 0,
{
}

} // verus!
