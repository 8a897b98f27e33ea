//! The match, played on a bench field.
//!
//! The bench measures: it moves hulls and shells in plain floating point and
//! hands the readings to the library, which decides everything.

use std::collections::HashSet;
use std::f32::consts::PI;

use orewar::capture::{Standoff, Wreck};
use orewar::collide::{Brush, Contact, part};
use orewar::combat::{Blow, Hittable};
use orewar::drive::{Asked, Driver, Drove, Flew, Ground};
use orewar::game::{Game, Hill, OreDeposit, Projectile};
use orewar::measure::{MoveState, Vec2};
use orewar::player::{Dials, Vehicle};
use orewar::protocol::{
    DenyReason, GameEvent, GameStatus, HitKind, InputFrame, MinerMode, PowerUp, ProjectileKind,
    RejectReason, Snapshot, VehicleKind, VehicleSlot, BOMBER_PRICE, CAPTURES_TO_WIN, MAX_PLAYERS,
};
use orewar::respawn::Wait;
use orewar::rules::{Capacity, Corner, Gun, Prices, Rules};
use orewar::shells::{burn, seek, Felt, Flight, Meeting, Sighting};
use orewar::snapshot::Survey;
use orewar::tick::Phase;
use orewar::weapons::{Sights, Slew, Watch};

fn rank(x: f32) -> i32 {
    let bits = x.to_bits();
    if bits >> 31 == 0 {
        bits as i32
    } else {
        -((bits & 0x7fff_ffff) as i32)
    }
}

fn num(r: i32) -> f32 {
    if r >= 0 {
        f32::from_bits(r as u32)
    } else {
        -f32::from_bits((-r) as u32)
    }
}

/// A place, in plain numbers.
#[derive(Clone, Copy, Debug, PartialEq)]
struct P(f32, f32);

impl P {
    fn of(v: Vec2) -> P {
        P(num(v.x), num(v.y))
    }
    fn v(self) -> Vec2 {
        Vec2 { x: rank(self.0), y: rank(self.1) }
    }
    fn splat(x: f32) -> P {
        P(x, x)
    }
    fn dir(yaw: f32) -> P {
        P(yaw.cos(), yaw.sin())
    }
    fn plus(self, o: P) -> P {
        P(self.0 + o.0, self.1 + o.1)
    }
    fn less(self, o: P) -> P {
        P(self.0 - o.0, self.1 - o.1)
    }
    fn times(self, k: f32) -> P {
        P(self.0 * k, self.1 * k)
    }
    fn dot(self, o: P) -> f32 {
        self.0 * o.0 + self.1 * o.1
    }
    fn len(self) -> f32 {
        self.dot(self).sqrt()
    }
    fn to(self, o: P) -> f32 {
        self.less(o).len()
    }
    fn angle(self) -> f32 {
        self.1.atan2(self.0)
    }
    fn unit(self) -> P {
        let l = self.len();
        if l > 1e-6 {
            self.times(1.0 / l)
        } else {
            P(0.0, 0.0)
        }
    }
    fn perp(self) -> P {
        P(-self.1, self.0)
    }
}

const DT: f32 = 1.0 / 30.0;
const WORLD: f32 = 512.0;
const TANK_RADIUS: f32 = 3.0;
const MINER_RADIUS: f32 = 3.4;
const PLANE_RADIUS: f32 = 4.0;
const SENTINEL_RADIUS: f32 = 3.0;
const TANK_SPEED: f32 = 22.0;
const MINER_SPEED: f32 = 14.0;
const SHIELD: f32 = 100.0;
const TANK_HULL: f32 = 100.0;
const MINER_HULL: f32 = 200.0;
const CARGO: f32 = 60.0;
const BASE_RADIUS: f32 = 12.0;
const BULLET_SPEED: f32 = 90.0;
const BULLET_LIFETIME: f32 = 0.57;
const BULLET_DAMAGE: f32 = 12.0;
const MISSILE_MAX_SPEED: f32 = 70.0;
const MISSILE_LIFETIME: f32 = 4.0;
const SENTINEL_RANGE: f32 = 170.0;
const SENTINEL_HULL: f32 = 150.0;
const SENTINEL_REBUILD: f32 = 20.0;
const AUTO_TURRET_RANGE: f32 = 60.0;
const PLANE_CRUISE: f32 = 27.0;
const PLANE_TRIM: f32 = 8.0;
const PLANE_ALTITUDE: f32 = 26.0;
const PLANE_EDGE_BAND: f32 = 40.0;
const BOMB_FALL_TIME: f32 = 2.0;
const BOMB_DAMAGE: f32 = 200.0;
const BOMB_RADIUS: f32 = 16.0;
const MINING_RADIUS: f32 = 8.0;
const MINING_MAX_SPEED: f32 = 2.0;
const CAPTURE_RADIUS: f32 = 8.0;
const CAPTURE_TIME: f32 = 4.0;
const CAPTURE_LOCKOUT: f32 = 60.0;
const SORTIE_COOLDOWN: f32 = 45.0;
const PLANE_FUEL: f32 = 60.0;
const TANK_RESPAWN_DELAY: f32 = 8.0;
const SHIELD_REGEN_DELAY: f32 = 4.0;
const INPUT_TIMEOUT: f32 = 0.5;
const IMPACT_THRESHOLD: f32 = 8.0;
const STARTING_CREDITS: u32 = 200;
const STARTING_MISSILES: u8 = 4;
const MISSILES_PER_PACK: u8 = 6;

fn base(id: u8) -> P {
    match id {
        0 => P(40.0, 40.0),
        1 => P(WORLD - 40.0, WORLD - 40.0),
        2 => P(WORLD - 40.0, 40.0),
        _ => P(40.0, WORLD - 40.0),
    }
}

fn corner(id: u8) -> Corner {
    let at = base(id);
    let inward = P::splat(WORLD * 0.5).less(at).angle();
    let ahead = at.plus(P::dir(inward).times(7.0));
    let across = P::dir(inward).perp().times(8.0);
    let back = if at.0 < WORLD * 0.5 { -26.0 } else { 26.0 };
    let tank = ahead;
    let post = P(tank.0 + back, tank.1);
    Corner {
        base: at.v(),
        inward: rank(inward),
        tank_start: tank.v(),
        miner_start: at.plus(across).v(),
        post: post.v(),
        post_inward: rank(P::splat(WORLD * 0.5).less(post).angle()),
    }
}

fn gun(cooldown: f32, speed: f32, life: f32) -> Gun {
    Gun { cooldown: rank(cooldown), speed: rank(speed), life: rank(life) }
}

fn holds(kind: VehicleKind) -> Capacity {
    let hull = if kind == VehicleKind::Miner { MINER_HULL } else { TANK_HULL };
    Capacity { shield: rank(SHIELD), hull: rank(hull) }
}

fn bench_rules() -> Rules {
    Rules {
        starting_credits: STARTING_CREDITS,
        starting_missiles: STARTING_MISSILES,
        starting_powerups: 0,
        missiles_per_pack: MISSILES_PER_PACK,
        prices: Prices {
            radar: 60,
            shield_booster: 120,
            turbo: 110,
            miner_armor: 90,
            auto_turret: 150,
            long_barrel: 130,
            missile_pack: 40,
        },
        starting_tank: holds(VehicleKind::Tank),
        starting_miner: holds(VehicleKind::Miner),
        corners: (0..4u8).map(corner).collect(),
        color_names: ["Red", "Blue", "Green", "Gold"].iter().map(|s| s.to_string()).collect(),
        world_size: rank(WORLD),
        ore_sync_interval: 30,
        projectile_budget: 24,
        hit_budget: 8,
        plane_cruise: rank(PLANE_CRUISE),
        plane_altitude: rank(PLANE_ALTITUDE),
        tank_radius: rank(TANK_RADIUS),
        miner_radius: rank(MINER_RADIUS),
        plane_radius: rank(PLANE_RADIUS),
        sentinel_radius: rank(SENTINEL_RADIUS),
        tank_wall: rank(WORLD - TANK_RADIUS),
        miner_wall: rank(WORLD - MINER_RADIUS),
        same_height: rank(4.0),
        sentinel_hull: rank(SENTINEL_HULL),
        sentinel_rebuild: rank(SENTINEL_REBUILD),
        sentinel_range: rank(SENTINEL_RANGE),
        sentinel_gun: gun(1.0, BULLET_SPEED, (SENTINEL_RANGE + 6.0) / BULLET_SPEED),
        auto_turret_range: rank(AUTO_TURRET_RANGE),
        auto_turret_gun: gun(0.8, BULLET_SPEED, (AUTO_TURRET_RANGE + 6.0) / BULLET_SPEED),
        tank_gun: gun(0.25, BULLET_SPEED, BULLET_LIFETIME),
        missile: gun(1.0, 30.0, MISSILE_LIFETIME),
        missile_max_speed: rank(MISSILE_MAX_SPEED),
        cannon: gun(0.22, 120.0, 1.0),
        bomb_cooldown: rank(0.8),
        bullet_damage: rank(BULLET_DAMAGE),
        missile_damage: rank(40.0),
        cannon_damage: rank(30.0),
        missile_seek_range: rank(90.0),
        missile_seek_cone: rank(0.9),
        bomb_blast_radius: rank(BOMB_RADIUS),
        mining_radius: rank(MINING_RADIUS),
        mining_max_speed: rank(MINING_MAX_SPEED),
        capture_radius: rank(CAPTURE_RADIUS),
        impact_threshold: rank(IMPACT_THRESHOLD),
        home_arrival: rank(BASE_RADIUS * 0.6),
        deposit_arrival: rank(MINING_RADIUS * 0.7),
        stall_speed: rank(0.5),
    }
}

/// Ore for a seed: one deposit near every corner, nudged by the seed.
fn bench_ore(seed: u64) -> Vec<OreDeposit> {
    let nudge = (seed % 7) as f32;
    (0..4u8)
        .map(|id| {
            let at = base(id);
            let inward = P::splat(WORLD * 0.5).less(at).unit();
            let pos = at.plus(inward.times(50.0 + nudge)).plus(inward.perp().times(20.0));
            OreDeposit { pos: pos.v(), amount: rank(900.0), capacity: rank(900.0) }
        })
        .collect()
}

fn new_game(seed: u64) -> Game {
    Game::new(bench_rules(), seed, bench_ore(seed), Vec::new())
}

fn wrap(a: f32) -> f32 {
    let mut a = a % (2.0 * PI);
    if a > PI {
        a -= 2.0 * PI;
    }
    if a < -PI {
        a += 2.0 * PI;
    }
    a
}

fn approach(from: f32, to: f32, step: f32) -> f32 {
    if (to - from).abs() <= step {
        to
    } else if to > from {
        from + step
    } else {
        from - step
    }
}

fn turn(yaw: f32, desired: f32, step: f32) -> f32 {
    let off = wrap(desired - yaw);
    if off.abs() <= step {
        wrap(desired)
    } else {
        wrap(yaw + step * off.signum())
    }
}

fn turret(yaw: i32, desired: f32) -> i32 {
    rank(turn(num(yaw), desired, 3.0 * DT))
}

/// Moves a ground hull one tick; says how hard it met a hillside.
fn roll_on(mv: MoveState, throttle: f32, steer: f32, kind: VehicleKind, hills: &[Hill]) -> (MoveState, f32) {
    let (top, radius) = match kind {
        VehicleKind::Miner => (MINER_SPEED, MINER_RADIUS),
        _ => (TANK_SPEED, TANK_RADIUS),
    };
    let speed = approach(num(mv.speed), throttle * top, 20.0 * DT);
    let yaw = wrap(num(mv.yaw) + steer * 1.8 * DT);
    let mut pos = P::of(mv.pos).plus(P::dir(yaw).times(speed * DT));
    let mut left = speed;
    let mut impact: f32 = 0.0;
    for h in hills {
        let clear = num(h.radius) + radius;
        let off = pos.less(P::of(h.pos));
        if off.len() < clear {
            let out = off.unit();
            let into = -P::dir(yaw).times(speed).dot(out);
            if into > impact {
                impact = into;
            }
            pos = P::of(h.pos).plus(out.times(clear));
            left *= 0.2;
        }
    }
    let hi = WORLD - radius;
    let pos = P(pos.0.clamp(radius, hi), pos.1.clamp(radius, hi));
    (MoveState { pos: pos.v(), yaw: rank(yaw), speed: rank(left), ..mv }, impact)
}

/// Flies an aircraft one tick. Near a wall it comes round on its own.
fn fly_on(mv: MoveState, throttle: f32, steer: f32, climb: f32) -> MoveState {
    let speed = approach(num(mv.speed), PLANE_CRUISE + throttle * PLANE_TRIM, 10.0 * DT);
    let at = P::of(mv.pos);
    let yaw = num(mv.yaw);
    let edge = |x: f32| x < PLANE_EDGE_BAND || x > WORLD - PLANE_EDGE_BAND;
    let home = P::splat(WORLD * 0.5).less(at).angle();
    let yaw = if edge(at.0) || edge(at.1) {
        turn(yaw, home, 1.2 * DT)
    } else {
        wrap(yaw + steer * 0.8 * DT)
    };
    let to = at.plus(P::dir(yaw).times(speed * DT));
    let to = P(to.0.clamp(0.0, WORLD), to.1.clamp(0.0, WORLD));
    let alt = (num(mv.alt) - climb * 15.0 * DT).clamp(10.0, 100.0);
    MoveState { pos: to.v(), yaw: rank(yaw), speed: rank(speed), roll: mv.roll, alt: rank(alt) }
}

/// How far along a segment it first comes within `r` of a place.
fn sweep(from: P, to: P, centre: P, r: f32) -> Option<f32> {
    let d = to.less(from);
    let f = from.less(centre);
    let c = f.dot(f) - r * r;
    if c <= 0.0 {
        return Some(0.0);
    }
    let a = d.dot(d);
    let b = 2.0 * f.dot(d);
    let disc = b * b - 4.0 * a * c;
    if a < 1e-9 || disc < 0.0 {
        return None;
    }
    let t = (-b - disc.sqrt()) / (2.0 * a);
    if (0.0..=1.0).contains(&t) {
        Some(t)
    } else {
        None
    }
}

/// The gauges once a blow has landed.
fn after(v: &Vehicle, damage: f32) -> Blow {
    let shield = num(v.shield);
    let soaked = shield.min(damage);
    Blow {
        shield: rank(shield - soaked),
        hull: rank((num(v.hull) - (damage - soaked)).max(0.0)),
    }
}

fn damage(g: &mut Game, player: u8, slot: VehicleSlot, amount: f32, by: u8, bearing: f32) {
    let Some(v) = g.player(player).and_then(|p| p.vehicle(slot)) else { return };
    let blow = after(v, amount);
    g.damage_vehicle(player, slot, blow, by, rank(bearing));
}

fn hurt_sentinel(g: &mut Game, player: u8, amount: f32) {
    let hull = num(g.player(player).unwrap().sentinel.hull);
    g.damage_sentinel(player, rank((hull - amount).max(0.0)));
}

fn ids(g: &Game) -> Vec<u8> {
    g.players.iter().flatten().map(|p| p.id).collect()
}

fn step(g: &mut Game) {
    let ages: Vec<i32> =
        g.players.iter().map(|p| p.as_ref().map_or(0, |p| rank(num(p.input_age) + DT))).collect();
    for phase in g.begin_step(&ages) {
        match phase {
            Phase::Vehicles => drive_all(g),
            Phase::Planes => fly_all(g),
            Phase::Collisions => part_all(g),
            Phase::Weapons => fire_all(g),
            Phase::Sentinels => watch_all(g),
            Phase::Projectiles => shoot_all(g),
            Phase::Economy => mine_all(g),
            Phase::Capture => take_all(g),
            Phase::Respawns => wait_all(g),
            Phase::Victory => g.check_victory(),
        }
    }
}

fn drove(v: &Vehicle, mv: MoveState, impact: f32, desired: f32) -> Drove {
    Drove {
        mv,
        terrain_impact: rank(impact),
        turret_yaw: turret(v.turret_yaw, desired),
        since_damage: rank(num(v.since_damage) + DT),
        shield: rank((num(v.shield) + 8.0 * DT).min(SHIELD)),
        gun_cooldown: rank((num(v.gun_cooldown) - DT).max(0.0)),
        missile_cooldown: rank((num(v.missile_cooldown) - DT).max(0.0)),
    }
}

fn nothing() -> Drove {
    let mv = MoveState { pos: Vec2 { x: 0, y: 0 }, yaw: 0, speed: 0, roll: 0, alt: 0 };
    Drove {
        mv,
        terrain_impact: 0,
        turret_yaw: 0,
        since_damage: 0,
        shield: 0,
        gun_cooldown: 0,
        missile_cooldown: 0,
    }
}

fn helm(mv: &MoveState, target: Option<(Vec2, i32)>) -> (f32, f32) {
    let Some((to, within)) = target else { return (0.0, 0.0) };
    let line = P::of(to).less(P::of(mv.pos));
    let gap = line.len() - num(within);
    if gap <= 0.0 {
        return (0.0, 0.0);
    }
    let off = wrap(line.angle() - num(mv.yaw));
    let steer = (off * 3.0).clamp(-1.0, 1.0);
    let throttle = if off.abs() > 1.0 { 0.1 } else { (gap / 8.0).clamp(0.1, 1.0) };
    (throttle, steer)
}

fn drive_all(g: &mut Game) {
    let mut ground: Vec<Ground> = Vec::new();
    for i in 0..g.players.len() {
        let mut round = Ground { tank: nothing(), miner: nothing() };
        if let Some(p) = g.players[i].clone() {
            if let Some(t) = &p.tank {
                let (throttle, steer) = match p.driver(VehicleSlot::Tank) {
                    Driver::Player { throttle, steer } => (num(throttle), num(steer)),
                    _ => (0.0, 0.0),
                };
                let (mv, impact) = roll_on(t.mv, throttle, steer, VehicleKind::Tank, &g.hills);
                round.tank = drove(t, mv, impact, num(p.turret_goal(mv.yaw)));
            }
            if let Some(m) = &p.miner {
                let here = P::of(m.mv.pos);
                let distances: Vec<i32> =
                    g.ore.iter().map(|d| rank(P::of(d.pos).to(here))).collect();
                let (throttle, steer) = match p.driver(VehicleSlot::Miner) {
                    Driver::Player { throttle, steer } => (num(throttle), num(steer)),
                    Driver::Autopilot => {
                        let target = g.autopilot_target(p.id, rank(CARGO), &distances);
                        let (throttle, steer) = helm(&m.mv, target);
                        let asked = Asked {
                            throttle: rank(throttle),
                            steer: rank(steer),
                            pace: rank(num(m.mv.speed).abs()),
                            stuck_for: rank(num(p.stuck_for) + DT),
                            unstick_for: rank(num(p.unstick_for) - DT),
                        };
                        let (throttle, steer) = g.helm(p.id, asked);
                        (num(throttle), num(steer))
                    }
                    _ => (0.0, 0.0),
                };
                let (mv, impact) = roll_on(m.mv, throttle, steer, VehicleKind::Miner, &g.hills);
                round.miner = drove(m, mv, impact, 0.0);
            }
        }
        ground.push(round);
    }
    for c in g.step_vehicles(&ground) {
        let over = num(c.impact) - IMPACT_THRESHOLD;
        damage(g, c.player, c.slot, over * 2.0, c.player, num(c.bearing));
    }
}

fn fly_all(g: &mut Game) {
    let flown: Vec<Flew> = g
        .players
        .iter()
        .map(|p| {
            let mut out =
                Flew { sortie_cooldown: 0, mv: nothing().mv, gun_cooldown: 0, missile_cooldown: 0, fuel: 0 };
            if let Some(p) = p {
                out.sortie_cooldown = rank((num(p.sortie_cooldown) - DT).max(0.0));
                if let Some(a) = &p.plane {
                    let (throttle, steer, climb) = p.flight_controls();
                    out.mv = fly_on(a.mv, num(throttle), num(steer), num(climb));
                    out.gun_cooldown = rank((num(a.gun_cooldown) - DT).max(0.0));
                    out.missile_cooldown = rank((num(a.missile_cooldown) - DT).max(0.0));
                    out.fuel = rank(num(a.fuel) - DT);
                }
            }
            out
        })
        .collect();
    g.step_planes(&flown);
}

fn velocity(g: &Game, player: u8, slot: VehicleSlot) -> P {
    let v = g.player(player).unwrap().vehicle(slot).unwrap();
    P::dir(num(v.mv.yaw)).times(num(v.mv.speed))
}

fn part_all(g: &mut Game) {
    let mut bodies = g.bodies();
    let speeds: Vec<P> = bodies.iter().map(|b| velocity(g, b.player, b.slot)).collect();
    let mut rams = Vec::new();
    for i in 0..bodies.len() {
        for j in (i + 1)..bodies.len() {
            let (a, b) = (bodies[i], bodies[j]);
            let (pa, pb) = (P::of(a.pos), P::of(b.pos));
            let reach = num(a.radius) + num(b.radius);
            let gap = pb.less(pa);
            if gap.len() >= reach {
                continue;
            }
            let axis = if gap.len() > 1e-4 { gap.unit() } else { P(1.0, 0.0) };
            let overlap = reach - gap.len();
            let into_a = axis.dot(speeds[i].unit()).clamp(0.0, 1.0);
            let into_b = axis.times(-1.0).dot(speeds[j].unit()).clamp(0.0, 1.0);
            let closing = speeds[i].less(speeds[j]).dot(axis);
            let contact = Contact {
                a_whole: pa.less(axis.times(overlap)).v(),
                b_whole: pb.plus(axis.times(overlap)).v(),
                a_half: pa.less(axis.times(overlap * 0.5)).v(),
                b_half: pb.plus(axis.times(overlap * 0.5)).v(),
                a_scale: rank(num(a.speed_scale) * (1.0 - 0.8 * into_a)),
                b_scale: rank(num(b.speed_scale) * (1.0 - 0.8 * into_b)),
                closing: rank(closing),
                a_face: rank(axis.angle()),
                b_face: rank(axis.times(-1.0).angle()),
            };
            if let Some(ram) = part(&g.rules, &mut bodies, i, j, contact) {
                rams.push((ram, (closing - IMPACT_THRESHOLD) * 1.5));
            }
        }
    }
    let left: Vec<i32> = bodies
        .iter()
        .map(|b| {
            let v = g.player(b.player).unwrap().vehicle(b.slot).unwrap();
            rank(num(v.mv.speed) * num(b.speed_scale))
        })
        .collect();
    g.settle_bodies(&bodies, &left);
    for (ram, cost) in rams {
        for c in [ram.a, ram.b] {
            damage(g, c.player, c.slot, cost, c.attacker, num(c.bearing));
        }
    }
    meet_all(g);
}

fn meet_all(g: &mut Game) {
    let up: Vec<u8> = ids(g).into_iter().filter(|&id| g.player(id).unwrap().plane.is_some()).collect();
    for (k, &a) in up.iter().enumerate() {
        for &b in &up[k + 1..] {
            let (Some(pa), Some(pb)) = (g.player(a).unwrap().plane, g.player(b).unwrap().plane) else {
                continue;
            };
            let line = P::of(pb.mv.pos).less(P::of(pa.mv.pos));
            let brush = Brush {
                clearance: rank(line.len() - 2.0 * PLANE_RADIUS),
                height_gap: rank((num(pa.mv.alt) - num(pb.mv.alt)).abs()),
            };
            let half = |v: &Vehicle| after(v, (SHIELD + TANK_HULL) * 0.5);
            g.meet_in_air(
                a,
                b,
                brush,
                half(&pa),
                half(&pb),
                rank(line.angle()),
                rank(line.times(-1.0).angle()),
            );
        }
    }
}

fn slew(yaw: i32, from: P, at: P, reach: f32) -> Slew {
    let desired = at.less(from).angle();
    let turned = num(turret(yaw, desired));
    Slew {
        yaw: rank(turned),
        off: rank(wrap(desired - turned).abs()),
        muzzle: from.plus(P::dir(turned).times(reach)).v(),
    }
}

fn fire_all(g: &mut Game) {
    let targets = g.collect_targets();
    let sights: Vec<Sights> = g
        .players
        .iter()
        .map(|p| {
            let p = p.as_ref();
            let tank = p.and_then(|p| p.tank);
            let plane = p.and_then(|p| p.plane);
            let miner = p.and_then(|p| p.miner);
            let long = p.map_or(false, |p| PowerUp::LongBarrel.held(p.powerups));
            let from = miner.map_or(P(0.0, 0.0), |m| P::of(m.mv.pos));
            Sights {
                muzzle: tank.map_or(P(0.0, 0.0), |t| {
                    P::of(t.mv.pos).plus(P::dir(num(t.turret_yaw)).times(3.4))
                }).v(),
                shell_life: rank(if long { 2.0 * BULLET_LIFETIME } else { BULLET_LIFETIME }),
                fall: rank(plane.map_or(0.0, |a| BOMB_FALL_TIME * num(a.mv.alt) / PLANE_ALTITUDE)),
                ranges: targets.iter().map(|t| rank(P::of(t.pos).to(from))).collect(),
                slews: targets
                    .iter()
                    .map(|t| slew(miner.map_or(0, |m| m.turret_yaw), from, P::of(t.pos), 3.2))
                    .collect(),
            }
        })
        .collect();
    g.step_weapons(&sights);
}

fn watch_all(g: &mut Game) {
    let targets = g.collect_targets();
    let watches: Vec<Watch> = g
        .players
        .iter()
        .enumerate()
        .map(|(i, p)| {
            let post = P::of(corner(i as u8).post);
            let s = p.as_ref().map(|p| p.sentinel);
            let yaw = s.map_or(0, |s| s.turret_yaw);
            Watch {
                rebuild_timer: rank(s.map_or(0.0, |s| num(s.rebuild_timer)) - DT),
                gun_cooldown: rank((s.map_or(0.0, |s| num(s.gun_cooldown)) - DT).max(0.0)),
                ranges: targets.iter().map(|t| rank(P::of(t.pos).to(post))).collect(),
                slews: targets
                    .iter()
                    .map(|t| slew(yaw, post, P::of(t.pos), SENTINEL_RADIUS + 1.0))
                    .collect(),
            }
        })
        .collect();
    g.step_sentinels(&watches);
}

fn flight(g: &Game, p: &Projectile) -> Flight {
    let ground = g.collect_targets();
    let air = g.collect_aircraft();
    let mut yaw = num(p.yaw);
    let mut speed = num(p.speed);
    let from = P::of(p.pos);
    if p.kind == ProjectileKind::Missile {
        let sightings: Vec<Sighting> = ground
            .iter()
            .map(|t| {
                let line = P::of(t.pos).less(from);
                Sighting {
                    distance: rank(line.len()),
                    off_nose: rank(wrap(line.angle() - yaw).abs()),
                }
            })
            .collect();
        if let Some(k) = seek(&g.rules, p.owner, &ground, &sightings) {
            yaw = turn(yaw, P::of(ground[k].pos).less(from).angle(), 1.6 * DT);
        }
        speed = num(burn(&g.rules, rank(speed + 60.0 * DT)));
    }
    let to = from.plus(P::dir(yaw).times(speed * DT));
    let targets = if p.kind == ProjectileKind::Cannon { &air } else { &ground };
    let meetings = targets
        .iter()
        .map(|t| {
            let height_gap = match t.what {
                Hittable::Vehicle(VehicleSlot::Plane) => {
                    let a = g.player(t.player).unwrap().plane.unwrap();
                    (num(a.mv.alt) - num(p.alt)).abs()
                }
                _ => 0.0,
            };
            let at = sweep(from, to, P::of(t.pos), num(t.radius));
            let impact = from.plus(to.less(from).times(at.unwrap_or(0.0)));
            Meeting {
                at: at.map(rank),
                height_gap: rank(height_gap),
                impact: impact.v(),
                bearing: rank(impact.less(P::of(t.pos)).angle()),
            }
        })
        .collect();
    let hill = g
        .hills
        .iter()
        .filter_map(|h| sweep(from, to, P::of(h.pos), num(h.radius)))
        .min_by(|a, b| a.total_cmp(b));
    Flight {
        life: rank(num(p.life) - DT),
        yaw: rank(yaw),
        speed: rank(speed),
        to: to.v(),
        meetings,
        hill: hill.map(rank),
        slope: from.plus(to.less(from).times(hill.unwrap_or(0.0))).v(),
    }
}

fn shoot_all(g: &mut Game) {
    let flights: Vec<Flight> = g.projectiles.iter().map(|p| flight(g, p)).collect();
    let targets = g.collect_targets();
    let landed = g.step_projectiles(&flights);
    let mut hits = landed.hits;
    for b in landed.blasts {
        let at = P::of(b.at);
        let distances: Vec<i32> = g.ore.iter().map(|d| rank(P::of(d.pos).to(at))).collect();
        let felt: Vec<Felt> = targets
            .iter()
            .map(|t| {
                let far = P::of(t.pos).to(at);
                Felt {
                    damage: rank((BOMB_DAMAGE * (1.0 - far / BOMB_RADIUS)).max(0.0)),
                    bearing: rank(at.less(P::of(t.pos)).angle()),
                }
            })
            .collect();
        hits.extend(g.blast(b, &distances, &felt));
    }
    for h in hits {
        let Some(p) = g.player(h.player) else { continue };
        let blow = match h.what {
            Hittable::Vehicle(slot) => match p.vehicle(slot) {
                Some(v) => after(v, num(h.damage)),
                None => continue,
            },
            Hittable::Sentinel => {
                Blow { shield: 0, hull: rank((num(p.sentinel.hull) - num(h.damage)).max(0.0)) }
            }
        };
        g.strike(h, blow);
    }
}

fn at_base(at: Vec2, id: u8) -> bool {
    P::of(at).to(base(id)) <= BASE_RADIUS
}

fn mine_all(g: &mut Game) {
    for id in ids(g) {
        let Some(m) = g.player(id).unwrap().miner else { continue };
        let here = P::of(m.mv.pos);
        let distances: Vec<i32> = g.ore.iter().map(|d| rank(P::of(d.pos).to(here))).collect();
        let pace = rank(num(m.mv.speed).abs());
        if let Some(site) = g.mining_site(id, rank(CARGO), pace, &distances) {
            let left = num(g.ore[site].amount);
            let take = (10.0 * DT).min(CARGO - num(m.cargo)).min(left);
            g.mine(id, site, rank(CARGO), rank(left - take), rank(num(m.cargo) + take));
        }
        let m = g.player(id).unwrap().miner.unwrap();
        let moved = (60.0 * DT).min(num(m.cargo));
        let whole = moved.floor().max(0.0);
        let cargo = num(m.cargo) - moved + (moved - whole);
        g.unload(id, at_base(m.mv.pos, id), whole as u32, rank(cargo));
    }
}

fn take_all(g: &mut Game) {
    let tanks: Vec<Option<P>> = g
        .players
        .iter()
        .map(|p| p.as_ref().and_then(|p| p.tank).map(|t| P::of(t.mv.pos)))
        .collect();
    let wrecks: Vec<Wreck> = g
        .players
        .iter()
        .map(|p| {
            let m = p.as_ref().and_then(|p| p.miner);
            let at = m.map_or(P(0.0, 0.0), |m| P::of(m.mv.pos));
            let progress = m.map_or(0.0, |m| num(m.capture_progress));
            Wreck {
                ranges: tanks.iter().map(|t| rank(t.map_or(9999.0, |t| t.to(at)))).collect(),
                repaired: rank((m.map_or(0.0, |m| num(m.hull)) + 10.0 * DT).min(MINER_HULL)),
                revives_at: rank(MINER_HULL * 0.25),
                eased: rank((progress - DT / CAPTURE_TIME).max(0.0)),
                pressed: rank(progress + DT / CAPTURE_TIME),
                faded: rank((progress - DT / (CAPTURE_TIME * 2.0)).max(0.0)),
            }
        })
        .collect();
    for t in g.step_capture(&wrecks) {
        let aboard = g.player(t.from).and_then(|p| p.miner).map_or(0.0, |m| num(m.cargo));
        g.apply_capture(t, aboard.floor().max(0.0) as u32);
    }
}

fn wait_all(g: &mut Game) {
    let waits: Vec<Wait> = g
        .players
        .iter()
        .map(|p| Wait {
            down_for: rank(p.as_ref().map_or(0.0, |p| num(p.down_for)) - DT),
            respawn_timer: rank(p.as_ref().map_or(0.0, |p| num(p.respawn_timer)) - DT),
            tank_holds: holds(VehicleKind::Tank),
            miner_holds: holds(VehicleKind::Miner),
        })
        .collect();
    g.step_respawns(&waits);
}

fn snapshot(g: &Game, viewer: u8, full_ore: bool) -> Snapshot {
    let middle = P::splat(WORLD * 0.5);
    let eye = g.eye(viewer).map_or(middle, P::of);
    let ground = g.ground_eye(viewer).map_or(middle, P::of);
    let survey = Survey {
        shell_distances: g.projectiles.iter().map(|p| rank(P::of(p.pos).to(eye))).collect(),
        shell_yaws: g.projectiles.iter().map(|p| rank(wrap(num(p.yaw)))).collect(),
        hit_distances: g.fx.iter().map(|h| rank(P::of(h.pos).to(ground))).collect(),
        ore_amounts: g.ore.iter().map(|d| num(d.amount).round().max(0.0) as u16).collect(),
        dials: g
            .players
            .iter()
            .map(|p| Dials {
                fuel: p.as_ref().and_then(|p| p.plane).map_or(0, |a| a.fuel),
                plane_ready_in: p.as_ref().map_or(0.0, |p| num(p.sortie_cooldown)).ceil() as u8,
                respawn_in: p.as_ref().map_or(0.0, |p| num(p.down_for)).ceil() as u8,
            })
            .collect(),
    };
    g.snapshot_for(viewer, full_ore, &survey)
}

fn buy(g: &mut Game, id: u8, powerup: PowerUp) {
    g.purchase(id, powerup, holds(VehicleKind::Tank), holds(VehicleKind::Miner));
}

fn launch(g: &mut Game, id: u8) {
    g.launch_plane(id, holds(VehicleKind::Plane));
}

fn still(pos: P) -> MoveState {
    MoveState { pos: pos.v(), yaw: 0, speed: 0, roll: 0, alt: 0 }
}

fn tank(g: &Game, id: u8) -> Vehicle {
    g.player(id).unwrap().tank.unwrap()
}

fn miner(g: &Game, id: u8) -> Vehicle {
    g.player(id).unwrap().miner.unwrap()
}

fn tank_mut(g: &mut Game, id: u8) -> &mut Vehicle {
    g.player_mut(id).unwrap().tank.as_mut().unwrap()
}

fn miner_mut(g: &mut Game, id: u8) -> &mut Vehicle {
    g.player_mut(id).unwrap().miner.as_mut().unwrap()
}

fn ticks(seconds: f32) -> usize {
    (seconds / DT) as usize
}

fn two_player_game() -> Game {
    let mut g = new_game(1234);
    g.join(1, "one").unwrap();
    g.join(2, "two").unwrap();
    step(&mut g);
    g
}

/// A match with a bystander, for everything about a capture that is not the end
/// of the match.
fn three_player_game() -> Game {
    let mut g = two_player_game();
    g.join(3, "three").unwrap();
    g.set_miner_mode(2, MinerMode::Stop);
    step(&mut g);
    g
}

#[test]
fn a_match_starts_once_two_players_connect() {
    let mut g = new_game(1);
    assert_eq!(g.status, GameStatus::Waiting);
    g.join(1, "solo").unwrap();
    step(&mut g);
    assert_eq!(g.status, GameStatus::Waiting, "one player is not a match");
    g.join(2, "other").unwrap();
    step(&mut g);
    assert_eq!(g.status, GameStatus::Running);
}

#[test]
fn players_start_in_their_own_corners() {
    let g = two_player_game();
    for id in 0..2u8 {
        assert!(P::of(tank(&g, id).mv.pos).to(base(id)) < 15.0);
        assert!(P::of(miner(&g, id).mv.pos).to(base(id)) < 15.0);
    }
    let a = P::of(tank(&g, 0).mv.pos);
    let b = P::of(tank(&g, 1).mv.pos);
    assert!(a.to(b) > 200.0, "opponents should start far apart");
}

#[test]
fn a_reconnecting_token_resumes_the_same_player() {
    let mut g = two_player_game();
    g.player_mut(0).unwrap().credits = 9999;
    g.player_mut(0).unwrap().powerups = PowerUp::Radar.bit();
    g.disconnect(0);
    assert!(!g.player(0).unwrap().connected);
    // The vehicles stay on the field while the player is away.
    assert!(g.player(0).unwrap().miner.is_some());

    let id = g.join(1, "one").unwrap();
    assert_eq!(id, 0, "same token must resume the same slot");
    assert_eq!(g.player(0).unwrap().credits, 9999, "state must survive the drop");
    assert!(g.player(0).unwrap().connected);
}

#[test]
fn a_restart_keeps_the_players_and_replaces_everything_else() {
    let mut g = two_player_game();
    g.player_mut(0).unwrap().credits = 9999;
    g.player_mut(0).unwrap().powerups = PowerUp::Radar.bit();
    g.player_mut(0).unwrap().ore_mined = 500;
    g.player_mut(0).unwrap().captures = 2;
    g.disconnect(1);
    let ore_before = g.ore.clone();
    let tick_before = g.tick;

    g.restart(999, 0, bench_ore(999), Vec::new());

    assert_eq!(g.player(0).unwrap().name, "one");
    assert_eq!(g.player(0).unwrap().token, 1);
    assert_eq!(g.player(1).unwrap().name, "two");
    assert!(g.player(0).unwrap().connected);
    assert!(!g.player(1).unwrap().connected, "who is here must not change either");

    let p = g.player(0).unwrap();
    assert_eq!(p.credits, STARTING_CREDITS);
    assert_eq!(p.powerups, g.rules.starting_powerups);
    assert_eq!(p.ore_mined, 0);
    assert_eq!(p.captures, 0);
    assert!(p.tank.is_some() && p.miner.is_some());
    assert_eq!(p.input, InputFrame::default(), "a held key must not cross over");

    assert_eq!(g.seed, 999);
    assert_ne!(g.ore, ore_before, "a restart is a new map");
    assert_eq!(g.winner, None);
    assert_eq!(g.tick, tick_before, "the tick must keep counting");
    assert!(g.events.contains(&GameEvent::MatchReset { world_seed: 999, by: 0 }));
}

#[test]
fn a_restart_with_two_players_present_starts_straight_away() {
    let mut g = two_player_game();
    assert_eq!(g.status, GameStatus::Running);
    g.restart(7, 1, bench_ore(7), Vec::new());
    assert_eq!(g.status, GameStatus::Running, "nobody should have to rejoin");
}

/// Reconnecting must not cost you the ability to drive.
#[test]
fn a_resumed_player_can_still_drive() {
    let mut g = two_player_game();
    g.hills.clear();
    let forward = |tick: u32| InputFrame {
        tick,
        controlling: VehicleSlot::Tank,
        throttle: rank(1.0),
        ..Default::default()
    };
    for tick in 1..200u32 {
        g.set_input(0, forward(tick));
        step(&mut g);
    }
    assert!(g.player(0).unwrap().acked_input > 100, "the tick counter should have climbed");

    // The client restarts: same token, same slot, tick numbering from one.
    g.disconnect(0);
    assert_eq!(g.join(1, "one"), Ok(0), "same token must resume the same slot");

    let before = P::of(tank(&g, 0).mv.pos);
    for tick in 1..60u32 {
        g.set_input(0, forward(tick));
        step(&mut g);
    }
    let went = P::of(tank(&g, 0).mv.pos).to(before);
    assert!(went > 20.0, "a resumed player must be able to drive, went {went}");
}

#[test]
fn a_full_server_turns_away_a_fifth_player() {
    let mut g = new_game(1);
    for i in 0..MAX_PLAYERS as u64 {
        assert!(g.join(i + 1, &format!("p{i}")).is_ok());
    }
    assert_eq!(g.join(99, "late"), Err(DenyReason::ServerFull));
}

#[test]
fn a_name_somebody_is_already_using_is_turned_away() {
    let mut g = new_game(1);
    assert_eq!(g.join(1, "Ash"), Ok(0));
    assert_eq!(g.join(2, "Ash"), Err(DenyReason::NameTaken));
    // The refusal must cost the newcomer nothing else: the slot they would have
    // had is still free under any other name.
    assert_eq!(g.join(2, "Bo"), Ok(1));
}

#[test]
fn reclaiming_your_own_name_is_not_a_duplicate() {
    let mut g = two_player_game();
    g.disconnect(0);
    assert_eq!(g.join(1, "one"), Ok(0), "your own name is yours to come back to");
    assert!(g.player(0).unwrap().connected);
}

#[test]
fn a_finished_match_turns_away_a_newcomer_for_the_right_reason() {
    let mut g = two_player_game();
    g.status = GameStatus::Finished;
    assert_eq!(g.join(3, "late"), Err(DenyReason::MatchFinished));
}

#[test]
fn mining_moves_ore_into_cargo_then_into_credits() {
    let mut g = two_player_game();
    let deposit = g.ore[0].pos;
    {
        let m = miner_mut(&mut g, 0);
        m.mv.pos = deposit;
        m.mv.speed = 0;
    }
    let before = num(g.ore[0].amount);
    for _ in 0..30 {
        step(&mut g);
    }
    assert!(num(g.ore[0].amount) < before, "deposit should deplete");
    assert!(num(miner(&g, 0).cargo) > 0.0, "miner should be carrying ore");

    // Put it home and let it unload.
    miner_mut(&mut g, 0).mv.pos = base(0).v();
    let credits_before = g.player(0).unwrap().credits;
    for _ in 0..60 {
        step(&mut g);
    }
    assert!(g.player(0).unwrap().credits > credits_before, "ore should convert to credits");
}

#[test]
fn a_moving_miner_cannot_mine() {
    let mut g = two_player_game();
    let deposit = g.ore[0].pos;
    {
        let p = g.player_mut(0).unwrap();
        p.input.controlling = VehicleSlot::Miner;
        p.input.throttle = rank(1.0);
        let m = p.miner.as_mut().unwrap();
        m.mv.pos = deposit;
        m.mv.speed = rank(MINING_MAX_SPEED + 3.0);
    }
    step(&mut g);
    assert_eq!(num(miner(&g, 0).cargo), 0.0);
}

#[test]
fn purchases_are_validated_against_credits_and_duplicates() {
    let mut g = two_player_game();
    g.player_mut(0).unwrap().credits = 0;
    g.events.clear();
    buy(&mut g, 0, PowerUp::Radar);
    assert!(matches!(
        g.events.last(),
        Some(GameEvent::PurchaseRejected { reason: RejectReason::NotEnoughCredits, .. })
    ));

    g.player_mut(0).unwrap().credits = 10_000;
    g.events.clear();
    buy(&mut g, 0, PowerUp::Radar);
    assert!(matches!(g.events.last(), Some(GameEvent::PurchaseAccepted { .. })));
    assert!(PowerUp::Radar.held(g.player(0).unwrap().powerups));
    assert_eq!(g.player(0).unwrap().credits, 10_000 - g.rules.prices.cost(PowerUp::Radar));

    g.events.clear();
    buy(&mut g, 0, PowerUp::Radar);
    assert!(matches!(
        g.events.last(),
        Some(GameEvent::PurchaseRejected { reason: RejectReason::AlreadyOwned, .. })
    ));
}

#[test]
fn missile_packs_stack_because_they_are_consumable() {
    let mut g = two_player_game();
    g.player_mut(0).unwrap().credits = 10_000;
    let before = g.player(0).unwrap().missiles;
    buy(&mut g, 0, PowerUp::MissilePack);
    buy(&mut g, 0, PowerUp::MissilePack);
    assert_eq!(g.player(0).unwrap().missiles, before + MISSILES_PER_PACK * 2);
}

#[test]
fn a_destroyed_tank_respawns_at_base() {
    let mut g = two_player_game();
    damage(&mut g, 0, VehicleSlot::Tank, 100_000.0, 1, 0.0);
    assert!(g.player(0).unwrap().tank.is_none());
    assert!(!g.player(0).unwrap().eliminated, "losing a tank is not elimination");

    for _ in 0..ticks(TANK_RESPAWN_DELAY) + 4 {
        step(&mut g);
    }
    let t = g.player(0).unwrap().tank.expect("tank should return");
    assert!(P::of(t.mv.pos).to(base(0)) < 15.0);
}

#[test]
fn a_miner_is_disabled_rather_than_destroyed() {
    let mut g = two_player_game();
    damage(&mut g, 0, VehicleSlot::Miner, 100_000.0, 1, 0.0);
    let m = g.player(0).unwrap().miner.expect("miner must remain");
    assert!(m.disabled);
    assert_eq!(num(m.hull), 0.0);
    assert!(!g.player(0).unwrap().eliminated, "it has to be captured, not just shot");
}

/// Takes one miner and lets the clock run out on the victim.
fn capture_once(g: &mut Game, by: u8, from: u8) {
    damage(g, from, VehicleSlot::Miner, 100_000.0, by, 0.0);
    let wreck = miner(g, from).mv.pos;
    // The owner's tank has to be drawn away before the wreck is takeable.
    tank_mut(g, from).mv.pos = P::splat(128.0).v();

    for _ in 0..ticks(CAPTURE_TIME) + 4 {
        if g.player(by).unwrap().tank.is_some() {
            tank_mut(g, by).mv.pos = wreck;
        }
        step(g);
    }
    assert!(g.player(from).unwrap().miner.is_none(), "the miner changed hands");
}

#[test]
fn a_captured_player_sits_out_a_minute_and_comes_back_rebuilt() {
    let mut g = three_player_game();
    g.hills.clear();
    {
        let p = g.player_mut(0).unwrap();
        p.powerups = PowerUp::Turbo.bit() | PowerUp::Radar.bit();
        p.credits = 900;
        p.missiles = 0;
    }

    capture_once(&mut g, 1, 0);
    assert!(g.player(0).unwrap().eliminated, "off the field for now");
    assert!(g.player(0).unwrap().tank.is_none(), "the tank goes with the miner");
    assert_ne!(g.status, GameStatus::Finished, "one capture is not the match");

    for _ in 0..ticks(CAPTURE_LOCKOUT) - 30 {
        step(&mut g);
    }
    assert!(g.player(0).unwrap().eliminated, "back far too early");
    assert!(g.player(0).unwrap().tank.is_none());

    for _ in 0..90 {
        step(&mut g);
    }
    let p = g.player(0).unwrap();
    assert!(!p.eliminated, "should be back after the lockout");
    assert!(p.tank.is_some() && p.miner.is_some(), "both vehicles come back");
    assert_eq!(p.credits, 0, "the bank is gone");
    assert_eq!(p.missiles, STARTING_MISSILES, "restocked as at the start of a match");
    assert_eq!(
        p.powerups,
        PowerUp::Turbo.bit() | PowerUp::Radar.bit(),
        "upgrades are permanent -- they are the whole reason to keep playing"
    );
    assert_eq!(num(p.miner.unwrap().cargo), 0.0);
    assert!(
        g.events.iter().any(|e| matches!(e, GameEvent::PlayerReturned { player: 0 })),
        "and it should be announced"
    );
}

#[test]
fn a_returning_player_starts_from_their_own_base() {
    let mut g = three_player_game();
    g.hills.clear();
    capture_once(&mut g, 1, 0);
    for _ in 0..ticks(CAPTURE_LOCKOUT) + 60 {
        step(&mut g);
        if !g.player(0).unwrap().eliminated {
            break;
        }
    }
    assert!(!g.player(0).unwrap().eliminated, "never came back");
    assert!(P::of(tank(&g, 0).mv.pos).to(base(0)) < 12.0);
    assert!(P::of(miner(&g, 0).mv.pos).to(base(0)) < 12.0);
}

#[test]
fn capturing_the_last_opponent_wins_the_match() {
    let mut g = two_player_game();
    g.hills.clear();
    capture_once(&mut g, 1, 0);

    assert_eq!(g.status, GameStatus::Finished, "nobody else is on the field");
    assert_eq!(g.winner, Some(1));
    assert!(
        g.events.contains(&GameEvent::GameOver { winner: 1 }),
        "the win has to be announced, not just recorded"
    );
    assert_eq!(
        g.player(1).unwrap().captures,
        1,
        "one capture, well short of the three that also win it"
    );
}

#[test]
fn a_capture_is_not_the_match_while_somebody_else_is_standing() {
    let mut g = three_player_game();
    g.hills.clear();
    capture_once(&mut g, 1, 0);
    assert_ne!(g.status, GameStatus::Finished, "player 2 is still out there");
    assert_eq!(g.winner, None);

    capture_once(&mut g, 1, 2);
    assert!(g.player(0).unwrap().eliminated, "the first victim is still down");
    assert_eq!(g.status, GameStatus::Finished);
    assert_eq!(g.winner, Some(1));
}

#[test]
fn a_disconnect_does_not_win_the_match_for_whoever_is_left() {
    let mut g = two_player_game();
    g.disconnect(0);
    for _ in 0..30 {
        step(&mut g);
    }
    assert_eq!(g.status, GameStatus::Running);
    assert_eq!(g.winner, None, "there is still a miner out there to take");
}

#[test]
fn taking_three_miners_wins_the_match() {
    let mut g = three_player_game();
    g.hills.clear();
    for round in 1..=CAPTURES_TO_WIN {
        capture_once(&mut g, 1, 0);
        assert_eq!(g.player(1).unwrap().captures, round);
        if round < CAPTURES_TO_WIN {
            assert_ne!(g.status, GameStatus::Finished, "won after only {round}");
            for _ in 0..ticks(CAPTURE_LOCKOUT) + 60 {
                step(&mut g);
            }
            assert!(!g.player(0).unwrap().eliminated, "never came back for round {round}");
        }
    }
    assert_eq!(g.status, GameStatus::Finished);
    assert_eq!(g.winner, Some(1));
}

#[test]
fn an_owner_can_rescue_their_own_disabled_miner() {
    let mut g = two_player_game();
    damage(&mut g, 0, VehicleSlot::Miner, 100_000.0, 1, 0.0);
    let wreck = miner(&g, 0).mv.pos;

    for _ in 0..600 {
        tank_mut(&mut g, 0).mv.pos = wreck;
        step(&mut g);
        if !miner(&g, 0).disabled {
            break;
        }
    }
    assert!(!miner(&g, 0).disabled, "should be repaired");
    assert!(!g.player(0).unwrap().eliminated);
}

#[test]
fn a_rescue_takes_longer_than_a_capture() {
    let mut g = two_player_game();
    damage(&mut g, 0, VehicleSlot::Miner, 100_000.0, 1, 0.0);
    let wreck = miner(&g, 0).mv.pos;
    let mut spent = 0;
    while spent < 2000 {
        tank_mut(&mut g, 0).mv.pos = wreck;
        step(&mut g);
        spent += 1;
        if !miner(&g, 0).disabled {
            break;
        }
    }
    let seconds = spent as f32 * DT;
    assert!(seconds > CAPTURE_TIME, "rescue took {seconds:.1}s");
}

#[test]
fn two_tanks_that_run_into_each_other_bounce_apart_and_both_pay() {
    let mut g = two_player_game();
    g.hills.clear();
    let touching = TANK_RADIUS * 2.0;

    // Nose to nose and well inside each other, closing at twice top speed.
    tank_mut(&mut g, 0).mv = MoveState { speed: rank(TANK_SPEED), ..still(P(100.0, 100.0)) };
    tank_mut(&mut g, 1).mv = MoveState {
        yaw: rank(PI),
        speed: rank(TANK_SPEED),
        ..still(P(100.0 + touching * 0.5, 100.0))
    };
    let full = num(tank(&g, 0).shield);

    step(&mut g);

    let (a, b) = (tank(&g, 0), tank(&g, 1));
    let apart = P::of(a.mv.pos).to(P::of(b.mv.pos));
    assert!(apart >= touching - 1e-3, "hulls ended {apart:.2} apart");
    assert!(
        num(a.shield) < full && num(b.shield) < full,
        "a head-on meeting has to cost both sides"
    );
    assert!(
        num(a.mv.speed) < TANK_SPEED && num(b.mv.speed) < TANK_SPEED,
        "and take the run out of both of them"
    );
}

#[test]
fn hulls_that_barely_touch_cost_nobody_anything() {
    let mut g = two_player_game();
    g.hills.clear();
    let touching = TANK_RADIUS * 2.0;
    tank_mut(&mut g, 0).mv = MoveState { speed: rank(2.0), ..still(P(100.0, 100.0)) };
    tank_mut(&mut g, 1).mv = still(P(100.0 + touching - 0.4, 100.0));
    let full = tank(&g, 0).shield;

    step(&mut g);

    assert_eq!(tank(&g, 0).shield, full);
    assert_eq!(tank(&g, 1).shield, full);
    let apart = P::of(tank(&g, 0).mv.pos).to(P::of(tank(&g, 1).mv.pos));
    assert!(apart >= touching - 1e-3, "they still may not overlap");
}

#[test]
fn a_wreck_is_solid_but_takes_nothing_and_gives_no_ground() {
    let mut g = two_player_game();
    g.hills.clear();
    damage(&mut g, 0, VehicleSlot::Miner, 100_000.0, 1, 0.0);
    let wreck = miner(&g, 0).mv.pos;
    let hull = miner(&g, 0).hull;

    // Straight through the middle of it at full speed.
    tank_mut(&mut g, 1).mv = MoveState { speed: rank(TANK_SPEED), ..still(P::of(wreck)) };
    step(&mut g);

    let m = miner(&g, 0);
    assert_eq!(m.mv.pos, wreck, "a wreck has no engine to be shoved with");
    assert_eq!(m.hull, hull, "and nothing left to lose");
    let apart = P::of(tank(&g, 1).mv.pos).to(P::of(wreck));
    assert!(apart >= TANK_RADIUS + MINER_RADIUS - 1e-3, "the tank ended {apart:.2} from it");
}

#[test]
fn a_tank_pressed_against_a_wreck_is_in_range_to_take_it() {
    let touching = TANK_RADIUS + MINER_RADIUS;
    assert!(CAPTURE_RADIUS > touching);

    let mut g = two_player_game();
    g.hills.clear();
    damage(&mut g, 0, VehicleSlot::Miner, 100_000.0, 1, 0.0);
    // The owner's tank starts next to it here, so it is drawn away.
    tank_mut(&mut g, 0).mv.pos = P::splat(128.0).v();
    let wreck = P::of(miner(&g, 0).mv.pos);
    tank_mut(&mut g, 1).mv = still(wreck.plus(P(touching, 0.0)));
    for _ in 0..ticks(CAPTURE_TIME) + 10 {
        step(&mut g);
    }
    assert!(g.player(0).unwrap().eliminated, "an undefended wreck at arm's length must fall");
}

fn ahead(tick: u32, throttle: f32) -> InputFrame {
    InputFrame {
        tick,
        controlling: VehicleSlot::Tank,
        throttle: rank(throttle),
        ..Default::default()
    }
}

#[test]
fn a_tank_driven_into_a_hill_at_speed_loses_hull() {
    let mut g = two_player_game();
    let start = P::of(tank(&g, 0).mv.pos);
    g.hills = vec![Hill { pos: start.plus(P(40.0, 0.0)).v(), radius: rank(8.0) }];
    tank_mut(&mut g, 0).mv.yaw = 0;
    let full = num(tank(&g, 0).shield);
    for tick in 0..60u32 {
        g.set_input(0, ahead(tick + 1, 1.0));
        step(&mut g);
    }
    assert!(num(tank(&g, 0).shield) < full, "a full-speed run into a hillside has to cost");

    // Nosing up to the same hill at a crawl does not.
    let mut gentle = two_player_game();
    gentle.hills = vec![Hill { pos: start.plus(P(12.0, 0.0)).v(), radius: rank(8.0) }];
    tank_mut(&mut gentle, 0).mv.yaw = 0;
    for tick in 0..60u32 {
        gentle.set_input(0, ahead(tick + 1, 0.2));
        step(&mut gentle);
    }
    assert_eq!(num(tank(&gentle, 0).shield), full, "parking against a slope is not a crash");
}

#[test]
fn a_destroyed_tank_hands_control_to_the_miner() {
    let mut g = two_player_game();
    g.hills.clear();
    damage(&mut g, 0, VehicleSlot::Tank, 100_000.0, 1, 0.0);
    assert!(g.player(0).unwrap().tank.is_none());

    let start = P::of(miner(&g, 0).mv.pos);
    for tick in 0..30u32 {
        // Still asking to drive the tank, exactly as a client would.
        g.set_input(0, ahead(tick + 1, 1.0));
        step(&mut g);
    }
    let moved = P::of(miner(&g, 0).mv.pos).to(start);
    assert!(moved > 3.0, "the miner only moved {moved:.2}; the player is still frozen out");
}

/// Gives a player the aircraft and puts a sortie in the air.
fn launch_for(g: &mut Game, id: u8) {
    g.player_mut(id).unwrap().powerups |= PowerUp::Bomber.bit();
    launch(g, id);
}

#[test]
fn a_sortie_needs_the_upgrade_and_stands_down_between_runs() {
    let mut g = two_player_game();
    g.player_mut(0).unwrap().powerups &= !PowerUp::Bomber.bit();
    launch(&mut g, 0);
    assert!(g.player(0).unwrap().plane.is_none(), "a sortie flew without being bought");

    launch_for(&mut g, 0);
    assert!(g.player(0).unwrap().plane.is_some(), "the sortie never took off");

    // Asking again while one is up does not stack a second.
    launch(&mut g, 0);
    assert!(g.player(0).unwrap().plane.is_some());

    for _ in 0..ticks(PLANE_FUEL) + 5 {
        step(&mut g);
    }
    let p = g.player(0).unwrap();
    assert!(p.plane.is_none(), "the sortie outlived its fuel");
    assert!(num(p.sortie_cooldown) > 0.0, "nothing is standing between this and the next one");

    launch(&mut g, 0);
    assert!(g.player(0).unwrap().plane.is_none(), "a second sortie skipped the cooldown");
    for _ in 0..ticks(SORTIE_COOLDOWN) + 5 {
        step(&mut g);
    }
    launch(&mut g, 0);
    assert!(g.player(0).unwrap().plane.is_some(), "the cooldown never let go");
}

#[test]
fn an_aircraft_out_of_fuel_hands_the_controls_back() {
    let mut g = two_player_game();
    launch_for(&mut g, 0);
    let flying =
        |tick: u32| InputFrame { tick, controlling: VehicleSlot::Plane, ..Default::default() };
    g.set_input(0, flying(1));
    step(&mut g);
    assert_eq!(g.player(0).unwrap().effective_input().controlling, VehicleSlot::Plane);

    for _ in 0..ticks(PLANE_FUEL) + 5 {
        g.set_input(0, flying(2));
        step(&mut g);
    }

    let p = g.player(0).unwrap();
    assert!(p.plane.is_none());
    assert_eq!(
        p.effective_input().controlling,
        VehicleSlot::Tank,
        "the player was left driving an aircraft that is not there"
    );
}

fn shell(id: u16, kind: ProjectileKind, owner: u8, pos: P, yaw: f32, speed: f32, life: f32) -> Projectile {
    Projectile {
        id,
        kind,
        owner,
        pos: pos.v(),
        yaw: rank(yaw),
        speed: rank(speed),
        life: rank(life),
        alt: 0,
    }
}

#[test]
fn a_bomb_falls_past_the_hill_that_would_have_stopped_a_shell() {
    let target = P(200.0, 200.0);
    let yaw = PI;
    let release = target.less(P::dir(yaw).times(PLANE_CRUISE * BOMB_FALL_TIME));
    let middle = target.plus(release.less(target).times(0.5));
    let hill = Hill { pos: middle.v(), radius: rank(10.0) };

    let fire = |kind: ProjectileKind, speed: f32, life: f32| {
        let mut g = two_player_game();
        g.hills = vec![hill];
        tank_mut(&mut g, 1).mv = still(target);
        let before = num(tank(&g, 1).shield);
        g.projectiles.push(shell(900, kind, 0, release, yaw, speed, life));
        for _ in 0..ticks(life) + 3 {
            step(&mut g);
        }
        before - g.player(1).unwrap().tank.map_or(0.0, |t| num(t.shield))
    };

    let stopped = fire(ProjectileKind::Missile, MISSILE_MAX_SPEED, MISSILE_LIFETIME);
    assert_eq!(stopped, 0.0, "the hill was supposed to be cover and let {stopped} through");

    let bomb = fire(ProjectileKind::Bomb, PLANE_CRUISE, BOMB_FALL_TIME);
    assert!(bomb > 0.0, "the hill ate a bomb that was 26 units above it");
}

fn over_the_middle(g: &mut Game, id: u8) {
    if let Some(plane) = g.player_mut(id).unwrap().plane.as_mut() {
        plane.mv.pos = P::splat(WORLD * 0.5).v();
    }
}

#[test]
fn cheat_mode_makes_the_list_free_and_the_fuel_endless() {
    let mut g = two_player_game();
    assert!(!g.cheats, "a match does not start in cheat mode");

    buy(&mut g, 0, PowerUp::Bomber);
    assert!(!PowerUp::Bomber.held(g.player(0).unwrap().powerups));

    g.toggle_cheats();
    for id in [0, 1] {
        let before = g.player(id).unwrap().credits;
        buy(&mut g, id, PowerUp::Bomber);
        assert!(PowerUp::Bomber.held(g.player(id).unwrap().powerups), "player {id}");
        assert_eq!(g.player(id).unwrap().credits, before, "player {id} was charged");
    }

    launch(&mut g, 0);
    assert!(g.player(0).unwrap().plane.is_some());
    for _ in 0..ticks(PLANE_FUEL * 2.0) {
        step(&mut g);
        over_the_middle(&mut g, 0);
    }
    assert!(g.player(0).unwrap().plane.is_some(), "the sortie ran out of fuel with cheats on");

    g.toggle_cheats();
    for _ in 0..ticks(PLANE_FUEL) + 5 {
        step(&mut g);
        over_the_middle(&mut g, 0);
    }
    assert!(g.player(0).unwrap().plane.is_none(), "the fuel never started burning again");
}

#[test]
fn the_throttle_reaches_the_aircraft() {
    let mut g = two_player_game();
    launch_for(&mut g, 0);
    let mut tick = 0u32;
    let mut fly = |g: &mut Game, throttle: f32| {
        for _ in 0..60 {
            tick += 1;
            g.set_input(
                0,
                InputFrame {
                    tick,
                    controlling: VehicleSlot::Plane,
                    throttle: rank(throttle),
                    ..Default::default()
                },
            );
            step(g);
            over_the_middle(g, 0);
        }
        num(g.player(0).unwrap().plane.unwrap().mv.speed)
    };

    let fast = fly(&mut g, 1.0);
    assert!(fast > PLANE_CRUISE + PLANE_TRIM - 0.5, "full throttle only reached {fast}");
    let slow = fly(&mut g, -1.0);
    assert!(slow < PLANE_CRUISE - PLANE_TRIM + 0.5, "held back it still did {slow}");
}

#[test]
fn the_wall_sends_a_sortie_home_instead_of_ending_it() {
    let mut g = two_player_game();
    launch_for(&mut g, 0);
    g.toggle_cheats(); // fuel off, so only the wall could end this
    g.player_mut(0).unwrap().plane.as_mut().unwrap().mv = MoveState {
        speed: rank(PLANE_CRUISE),
        alt: rank(PLANE_ALTITUDE),
        ..still(P(WORLD - 10.0, WORLD * 0.5))
    };
    let mut got_clear = false;
    for _ in 0..600 {
        step(&mut g);
        let plane = g.player(0).unwrap().plane.expect("the wall ended the sortie");
        if num(plane.mv.pos.x) < WORLD - PLANE_EDGE_BAND - 10.0 {
            got_clear = true;
        }
    }
    assert!(got_clear, "it never got out of the band it started in");
}

#[test]
fn a_bomb_destroys_the_ore_it_lands_on() {
    let mut g = two_player_game();
    g.hills.clear();
    let at = P(200.0, 200.0);
    let deposit = |pos: P| OreDeposit { pos: pos.v(), amount: rank(900.0), capacity: rank(900.0) };
    g.ore = vec![deposit(at), deposit(at.plus(P(BOMB_RADIUS + 6.0, 0.0)))];
    g.clear_dirty_ore();

    g.projectiles.push(shell(910, ProjectileKind::Bomb, 0, at, 0.0, 0.0, DT * 0.5));
    step(&mut g);

    assert_eq!(num(g.ore[0].amount), 0.0, "one bomb should have emptied it outright");
    assert_eq!(num(g.ore[1].amount), 900.0, "a deposit clear of the blast was taken with it");
    assert_eq!(g.dirty_ore, HashSet::from([0u16]), "and the change has to be told");
}

#[test]
fn a_bomb_hurts_what_is_near_where_it_lands() {
    let damage_at = |offset: f32| {
        let mut g = two_player_game();
        g.hills.clear();
        let at = P(200.0, 200.0);
        g.set_miner_mode(1, MinerMode::Stop);
        miner_mut(&mut g, 1).mv = still(at.plus(P(offset, 0.0)));
        let taken = |g: &Game| num(miner(g, 1).shield) + num(miner(g, 1).hull);
        let before = taken(&g);
        g.projectiles.push(shell(901, ProjectileKind::Bomb, 0, at, 0.0, 0.0, DT * 0.5));
        step(&mut g);
        before - taken(&g)
    };

    let direct = damage_at(0.0);
    let near = damage_at(BOMB_RADIUS * 0.6);
    let clear = damage_at(BOMB_RADIUS + 5.0);
    assert!(direct > 0.0, "a bomb landing on a miner did nothing");
    assert!(near > 0.0 && near < direct, "the falloff is not a slope: {direct} then {near}");
    assert_eq!(clear, 0.0, "a bomb outside its own radius still did {clear}");
    assert!(direct >= BOMB_DAMAGE - 0.5, "a square hit only took {direct} of {BOMB_DAMAGE}");
}

#[test]
fn the_aircraft_is_not_something_that_can_be_shot_at() {
    let mut g = two_player_game();
    g.hills.clear();
    launch_for(&mut g, 0);
    let over = P(200.0, 200.0);
    g.player_mut(0).unwrap().plane.as_mut().unwrap().mv =
        MoveState { speed: rank(PLANE_CRUISE), alt: rank(PLANE_ALTITUDE), ..still(over) };
    assert!(
        !g.collect_targets().iter().any(|t| t.what == Hittable::Vehicle(VehicleSlot::Plane)),
        "the aircraft is in the target list and can be shot at"
    );

    // Walk a shell straight through where it is.
    g.projectiles.push(shell(
        902,
        ProjectileKind::Missile,
        1,
        over.less(P(30.0, 0.0)),
        0.0,
        MISSILE_MAX_SPEED,
        MISSILE_LIFETIME,
    ));
    for _ in 0..20 {
        step(&mut g);
    }
    assert!(g.player(0).unwrap().plane.is_some(), "something shot the aircraft down");
}

/// Disables a miner, loads it, and parks an enemy tank against it until it falls.
fn take_loaded(g: &mut Game, cargo: f32) {
    g.hills.clear();
    damage(g, 0, VehicleSlot::Miner, 100_000.0, 1, 0.0);
    miner_mut(g, 0).cargo = rank(cargo);
    tank_mut(g, 0).mv.pos = P::splat(128.0).v();
    let wreck = P::of(miner(g, 0).mv.pos);
    tank_mut(g, 1).mv = still(wreck.plus(P(TANK_RADIUS + MINER_RADIUS, 0.0)));
    for _ in 0..ticks(CAPTURE_TIME) + 10 {
        step(g);
    }
}

#[test]
fn capturing_a_loaded_miner_seizes_its_ore() {
    let mut g = two_player_game();
    let before = g.player(1).unwrap().credits;
    take_loaded(&mut g, 42.7);
    assert_eq!(
        g.player(1).unwrap().credits,
        before + 42,
        "whole units only, and the fraction goes down with the hull"
    );
    assert!(
        g.events.iter().any(|e| matches!(e, GameEvent::OreSeized { by: 1, from: 0, amount: 42 })),
        "the haul has to be announced: {:?}",
        g.events
    );
}

#[test]
fn capturing_an_empty_miner_announces_nothing() {
    let mut g = two_player_game();
    take_loaded(&mut g, 0.0);
    assert!(g.player(0).unwrap().eliminated);
    assert!(
        !g.events.iter().any(|e| matches!(e, GameEvent::OreSeized { .. })),
        "nothing was aboard, so nothing was seized"
    );
}

fn post(id: u8) -> P {
    P::of(corner(id).post)
}

fn out_from_post(id: u8, distance: f32) -> P {
    let inward = P::splat(WORLD * 0.5).less(post(id)).angle();
    post(id).plus(P::dir(inward).times(distance))
}

#[test]
fn a_sentinel_shares_its_fire_between_two_attackers() {
    let mut g = two_player_game();
    g.hills.clear();
    let inward = P::splat(WORLD * 0.5).less(post(0)).angle();
    let across = P::dir(inward).perp().times(10.0);
    let ahead = out_from_post(0, 30.0);
    let (a, b) = (ahead.plus(across), ahead.less(across));

    let mut hit_tank = 0u32;
    let mut hit_miner = 0u32;
    // Out of the way, so that nothing but the two attackers is in the arc.
    tank_mut(&mut g, 0).mv.pos = P(300.0, 60.0).v();
    for _ in 0..600 {
        {
            let p = g.player_mut(1).unwrap();
            p.tank.as_mut().unwrap().mv = still(a);
            p.miner.as_mut().unwrap().mv = still(b);
            p.tank.as_mut().unwrap().shield = rank(100.0);
            p.miner.as_mut().unwrap().shield = rank(100.0);
        }
        step(&mut g);
        hit_tank += (num(tank(&g, 1).shield) < 100.0) as u32;
        hit_miner += (num(miner(&g, 1).shield) < 100.0) as u32;
    }
    assert!(
        hit_tank > 0 && hit_miner > 0,
        "both hulls should have been engaged, got {hit_tank}/{hit_miner}"
    );
}

#[test]
fn a_sentinel_reaches_the_far_edge_of_its_range() {
    let mut g = two_player_game();
    g.hills.clear();
    let edge = out_from_post(0, SENTINEL_RANGE - 2.0);
    let full = num(tank(&g, 1).shield);
    for _ in 0..300 {
        tank_mut(&mut g, 1).mv = still(edge);
        step(&mut g);
    }
    assert!(num(tank(&g, 1).shield) < full, "nothing landed inside a range of {SENTINEL_RANGE}");
}

#[test]
fn an_auto_turret_reaches_the_far_edge_of_its_range() {
    let mut g = two_player_game();
    g.hills.clear();
    g.player_mut(0).unwrap().powerups = PowerUp::AutoTurret.bit();
    let station = P::splat(WORLD * 0.5);
    let victim = station.plus(P(AUTO_TURRET_RANGE - 1.0, 0.0));
    let full = num(tank(&g, 1).shield);
    for _ in 0..300 {
        miner_mut(&mut g, 0).mv = still(station);
        tank_mut(&mut g, 1).mv = still(victim);
        step(&mut g);
    }
    assert!(num(tank(&g, 1).shield) < full, "nothing landed inside {AUTO_TURRET_RANGE}");
}

#[test]
fn a_sentinel_ignores_what_it_cannot_reach() {
    let mut g = two_player_game();
    g.hills.clear();
    let far = out_from_post(0, SENTINEL_RANGE + 25.0);
    tank_mut(&mut g, 1).mv = still(far);
    let full = num(tank(&g, 1).shield);
    for _ in 0..300 {
        tank_mut(&mut g, 1).mv.pos = far.v();
        step(&mut g);
    }
    assert_eq!(num(tank(&g, 1).shield), full);
}

#[test]
fn a_downed_sentinel_goes_quiet_and_comes_back() {
    let mut g = two_player_game();
    g.hills.clear();
    assert!(g.player(0).unwrap().sentinel.standing());

    hurt_sentinel(&mut g, 0, SENTINEL_HULL + 1.0);
    assert!(!g.player(0).unwrap().sentinel.standing(), "it should be rubble");
    let seen = snapshot(&g, 1, false);
    assert!(
        seen.players.iter().find(|p| p.id == 0).unwrap().sentinel.is_none(),
        "rubble must not be sent as a standing gun"
    );

    let close = out_from_post(0, 20.0);
    // The owner's own tank starts close by; it is not what this is about.
    tank_mut(&mut g, 0).mv.pos = P(300.0, 60.0).v();
    let full = num(tank(&g, 1).shield);
    for _ in 0..ticks(SENTINEL_REBUILD) - 30 {
        tank_mut(&mut g, 1).mv.pos = close.v();
        step(&mut g);
    }
    assert_eq!(num(tank(&g, 1).shield), full, "rubble does not shoot");

    for _ in 0..90 {
        tank_mut(&mut g, 1).mv.pos = close.v();
        step(&mut g);
    }
    let s = g.player(0).unwrap().sentinel;
    assert!(s.standing() && num(s.hull) == SENTINEL_HULL, "it should be back at full hull");
    assert!(
        g.events.iter().any(|e| matches!(e, GameEvent::SentinelRebuilt { player: 0 })),
        "and say so"
    );
}

#[test]
fn a_sentinel_is_friendly_to_its_owner() {
    let mut g = two_player_game();
    g.hills.clear();
    let close = out_from_post(0, 20.0);
    let full = num(tank(&g, 0).shield);
    for _ in 0..300 {
        tank_mut(&mut g, 0).mv.pos = close.v();
        step(&mut g);
    }
    assert_eq!(num(tank(&g, 0).shield), full);
}

#[test]
fn an_auto_miner_mines_and_banks_without_being_driven() {
    let mut g = two_player_game();
    let start = g.player(0).unwrap().credits;
    assert_eq!(g.player(0).unwrap().miner_mode, MinerMode::Auto, "the default");
    for tick in 0..3600u32 {
        g.set_input(0, ahead(tick + 1, 0.0));
        step(&mut g);
    }
    let p = g.player(0).unwrap();
    assert!(p.ore_mined > 0, "it never banked anything");
    assert!(p.credits > start, "credits went {start} -> {}", p.credits);
}

#[test]
fn a_stopped_miner_stays_where_it_is() {
    let mut g = two_player_game();
    g.set_miner_mode(0, MinerMode::Stop);
    let start = P::of(miner(&g, 0).mv.pos);
    for _ in 0..600 {
        step(&mut g);
    }
    let moved = P::of(miner(&g, 0).mv.pos).to(start);
    assert!(moved < 1.0, "it wandered {moved:.2} with the brakes on");
}

#[test]
fn a_miner_sent_home_goes_home() {
    let mut g = two_player_game();
    g.set_miner_mode(0, MinerMode::Home);
    {
        let m = miner_mut(&mut g, 0);
        m.mv = still(P::splat(WORLD * 0.4));
        m.cargo = rank(20.0);
    }
    for _ in 0..5400 {
        step(&mut g);
        if g.player(0).unwrap().credits > STARTING_CREDITS {
            break;
        }
    }
    assert!(at_base(miner(&g, 0).mv.pos, 0), "it is not on its pad");
    assert!(g.player(0).unwrap().credits > STARTING_CREDITS, "and should have unloaded");
}

#[test]
fn an_owner_tank_contests_an_enemy_capture() {
    let mut g = two_player_game();
    damage(&mut g, 0, VehicleSlot::Miner, 100_000.0, 1, 0.0);
    let wreck = miner(&g, 0).mv.pos;
    for _ in 0..ticks(CAPTURE_TIME) * 2 {
        tank_mut(&mut g, 1).mv.pos = wreck;
        tank_mut(&mut g, 0).mv.pos = wreck;
        step(&mut g);
    }
    assert!(!g.player(0).unwrap().eliminated, "a defended miner must not be taken");
}

#[test]
fn a_contested_wreck_is_neither_taken_nor_repaired() {
    let mut g = two_player_game();
    damage(&mut g, 0, VehicleSlot::Miner, 100_000.0, 1, 0.0);
    let wreck = miner(&g, 0).mv.pos;
    let hull = miner(&g, 0).hull;
    for _ in 0..ticks(CAPTURE_TIME) * 2 {
        tank_mut(&mut g, 1).mv.pos = wreck;
        tank_mut(&mut g, 0).mv.pos = wreck;
        step(&mut g);
    }
    let m = miner(&g, 0);
    assert!(m.disabled, "a contested wreck stays a wreck");
    assert_eq!(m.hull, hull, "no free repairs with an enemy tank on top of it");
    assert_eq!(g.player(1).unwrap().captures, 0, "and it is not taken either");
}

fn firing(tick: u32) -> InputFrame {
    InputFrame {
        tick,
        controlling: VehicleSlot::Tank,
        fire_primary: true,
        ..Default::default()
    }
}

#[test]
fn bullets_damage_enemies_and_never_their_owner() {
    let mut g = two_player_game();
    let shooter = P::of(tank(&g, 0).mv.pos);
    tank_mut(&mut g, 0).turret_yaw = 0;
    let victim = shooter.plus(P(20.0, 0.0));
    tank_mut(&mut g, 1).mv.pos = victim.v();
    let own = miner(&g, 0).shield;

    let start = num(tank(&g, 1).shield);
    for tick in 0..30u32 {
        g.set_input(0, firing(tick + 1));
        tank_mut(&mut g, 1).mv.pos = victim.v();
        step(&mut g);
    }
    assert!(num(tank(&g, 1).shield) < start, "the target should have taken fire");
    assert_eq!(miner(&g, 0).shield, own, "a player's own vehicles must be immune to their fire");
}

#[test]
fn a_long_barrel_lengthens_the_shell_a_tank_fires() {
    let mut g = two_player_game();
    g.player_mut(1).unwrap().powerups = PowerUp::LongBarrel.bit();
    for id in 0..2u8 {
        g.set_input(id, firing(1));
    }
    step(&mut g);

    let life = |owner: u8| {
        num(g
            .projectiles
            .iter()
            .find(|p| p.owner == owner && p.kind == ProjectileKind::Bullet)
            .unwrap_or_else(|| panic!("player {owner} should have a shell in the air"))
            .life)
    };
    let added = life(1) - life(0);
    assert!((added - BULLET_LIFETIME).abs() < 0.001, "{} against {}", life(1), life(0));
}

#[test]
fn a_shell_falls_short_of_a_quadrant_until_the_barrel_is_bought() {
    let reach = |life: f32| {
        let mut g = two_player_game();
        g.hills.clear();
        let start = P::splat(WORLD * 0.5);
        g.projectiles.push(shell(1, ProjectileKind::Bullet, 0, start, 0.0, BULLET_SPEED, life));
        let mut travelled = 0.0;
        for _ in 0..400 {
            let Some(shell) = g.projectiles.first() else { break };
            travelled = P::of(shell.pos).to(start);
            step(&mut g);
        }
        assert!(g.projectiles.is_empty(), "the shell should have fallen short by now");
        travelled
    };
    let plain = reach(BULLET_LIFETIME);
    let upgraded = reach(2.0 * BULLET_LIFETIME);
    let per_tick = BULLET_SPEED * DT;
    assert!(plain < WORLD * 0.25, "a plain shell carried {plain}");
    assert!((upgraded - plain * 2.0).abs() < per_tick * 2.0, "{upgraded} against {plain}");
}

#[test]
fn a_hill_between_two_tanks_is_cover() {
    let fire_for_a_while = |g: &mut Game| {
        let shooter = P::of(tank(g, 0).mv.pos);
        tank_mut(g, 0).turret_yaw = 0;
        let victim = shooter.plus(P(30.0, 0.0));
        tank_mut(g, 1).mv.pos = victim.v();
        let start = num(tank(g, 1).shield);
        for tick in 0..40u32 {
            g.set_input(0, firing(tick + 1));
            tank_mut(g, 1).mv.pos = victim.v();
            step(g);
        }
        start - num(tank(g, 1).shield)
    };

    let mut open = two_player_game();
    open.hills.clear();
    assert!(fire_for_a_while(&mut open) > 0.0, "the shot must land over open ground");

    let mut blocked = two_player_game();
    let shooter = P::of(tank(&blocked, 0).mv.pos);
    blocked.hills = vec![Hill { pos: shooter.plus(P(15.0, 0.0)).v(), radius: rank(6.0) }];
    assert_eq!(fire_for_a_while(&mut blocked), 0.0, "the hill should have eaten every shot");
}

#[test]
fn a_shield_that_soaks_a_hit_reports_a_flash_and_a_hull_hit_does_not() {
    let mut g = two_player_game();
    let at = P::of(tank(&g, 1).mv.pos);

    damage(&mut g, 1, VehicleSlot::Tank, 10.0, 0, 1.5);
    let fx = snapshot(&g, 0, false).hits;
    assert_eq!(fx.len(), 1, "a soaked hit should flash");
    assert_eq!(fx[0].kind, HitKind::Shield);
    assert_eq!(fx[0].target(), Some((1, VehicleSlot::Tank)));
    assert_eq!(num(fx[0].angle), 1.5);
    assert!(P::of(fx[0].pos).to(at) < 0.02, "the flash belongs on the vehicle");

    g.clear_dirty_ore();
    tank_mut(&mut g, 1).shield = 0;
    damage(&mut g, 1, VehicleSlot::Tank, 10.0, 0, 1.5);
    assert!(snapshot(&g, 0, false).hits.is_empty(), "a bare hull has no shield to flash");
}

#[test]
fn a_missile_into_a_hill_reports_a_blast() {
    let mut g = two_player_game();
    g.hills = vec![Hill { pos: P(120.0, 100.0).v(), radius: rank(8.0) }];
    g.projectiles.push(shell(
        1,
        ProjectileKind::Missile,
        0,
        P(100.0, 100.0),
        0.0,
        MISSILE_MAX_SPEED,
        MISSILE_LIFETIME,
    ));
    for _ in 0..8 {
        step(&mut g);
    }
    assert!(g.projectiles.is_empty(), "the hill should have stopped the missile");
    let fx = snapshot(&g, 0, false).hits;
    assert_eq!(fx.len(), 1);
    assert_eq!(fx[0].kind, HitKind::Blast);
    assert_eq!(fx[0].target(), None, "terrain is not a vehicle");
    assert!(num(fx[0].pos.x) < 120.0, "the blast belongs at the near face, not the middle");
}

#[test]
fn shields_regenerate_only_after_a_lull() {
    let mut g = two_player_game();
    damage(&mut g, 0, VehicleSlot::Tank, 30.0, 1, 0.0);
    let hurt = num(tank(&g, 0).shield);

    step(&mut g);
    assert_eq!(num(tank(&g, 0).shield), hurt, "no instant regen");

    for _ in 0..ticks(SHIELD_REGEN_DELAY) + 30 {
        step(&mut g);
    }
    assert!(num(tank(&g, 0).shield) > hurt, "shields should recover");
}

#[test]
fn input_expires_when_a_client_goes_quiet() {
    let mut g = two_player_game();
    g.set_input(0, InputFrame { tick: 1, throttle: rank(1.0), ..Default::default() });
    for _ in 0..15 {
        step(&mut g);
    }
    assert!(num(tank(&g, 0).mv.speed) > 5.0, "should be underway");
    for _ in 0..ticks(INPUT_TIMEOUT) + 60 {
        step(&mut g);
    }
    let speed = num(tank(&g, 0).mv.speed);
    assert!(speed.abs() < 0.5, "a silent client's tank should stop: speed {speed}");
}

#[test]
fn stale_input_frames_are_ignored() {
    let mut g = two_player_game();
    g.set_input(0, InputFrame { tick: 100, throttle: rank(1.0), ..Default::default() });
    g.set_input(0, InputFrame { tick: 50, throttle: rank(-1.0), ..Default::default() });
    assert_eq!(g.player(0).unwrap().input.tick, 100);
    assert!(num(g.player(0).unwrap().input.throttle) > 0.0, "the older frame must not win");
}

#[test]
fn the_simulation_is_reproducible() {
    let run = || {
        let mut g = new_game(777);
        g.join(1, "a").unwrap();
        g.join(2, "b").unwrap();
        for i in 0..300u32 {
            for id in 0..2u8 {
                g.set_input(
                    id,
                    InputFrame {
                        tick: i,
                        controlling: VehicleSlot::Tank,
                        throttle: rank(1.0),
                        steer: rank(((i % 11) as f32 - 5.0) / 5.0),
                        climb: 0,
                        aim: rank(i as f32 * 0.05),
                        fire_primary: i % 5 == 0,
                        fire_secondary: false,
                    },
                );
            }
            step(&mut g);
        }
        (tank(&g, 0).mv.pos, g.player(0).unwrap().credits, g.projectiles.len())
    };
    assert_eq!(run(), run());
}

/// Everyone firing everything: the lists in a snapshot stay within budget, and
/// the nearest are the ones kept.
#[test]
fn a_snapshot_keeps_what_is_nearest() {
    let mut g = two_player_game();
    g.hills.clear();
    for k in 0..40u16 {
        let at = P(60.0 + k as f32 * 4.0, 200.0);
        g.projectiles.push(shell(k, ProjectileKind::Bullet, 1, at, 0.0, 1.0, 100.0));
    }
    let eye = P::of(tank(&g, 0).mv.pos);
    let snap = snapshot(&g, 0, true);
    assert_eq!(snap.projectiles.len(), 24);
    let far = snap.projectiles.iter().map(|p| P::of(p.pos).to(eye)).fold(0.0, f32::max);
    for p in &g.projectiles {
        if P::of(p.pos).to(eye) < far {
            assert!(snap.projectiles.iter().any(|s| s.id == p.id), "shell {} was cut", p.id);
        }
    }
    assert_eq!(snap.ore.len(), g.ore.len());
    assert!(snap.ore_is_full_sync);
    assert!(snapshot(&g, 0, false).ore.is_empty(), "nothing has changed yet");
}

#[test]
fn the_cannon_reaches_another_aircraft_at_its_height_only() {
    let duel = |gap: f32| {
        let mut g = two_player_game();
        g.hills.clear();
        for id in 0..2u8 {
            launch_for(&mut g, id);
        }
        let place = |g: &mut Game, id: u8, x: f32, alt: f32| {
            g.player_mut(id).unwrap().plane.as_mut().unwrap().mv =
                MoveState { alt: rank(alt), ..still(P(x, 256.0)) };
        };
        for tick in 0..15u32 {
            place(&mut g, 0, 200.0, 30.0);
            place(&mut g, 1, 240.0, 30.0 + gap);
            g.set_input(
                0,
                InputFrame {
                    tick: tick + 1,
                    controlling: VehicleSlot::Plane,
                    fire_secondary: true,
                    ..Default::default()
                },
            );
            step(&mut g);
        }
        SHIELD - num(g.player(1).unwrap().plane.unwrap().shield)
    };
    assert!(duel(0.0) > 0.0, "a level shot has to land");
    assert_eq!(duel(40.0), 0.0, "a round flies level at the height it left at");
}

#[test]
fn two_aircraft_at_one_height_both_pay_for_meeting() {
    let meet = |gap: f32| {
        let mut g = two_player_game();
        for id in 0..2u8 {
            launch_for(&mut g, id);
            g.player_mut(id).unwrap().plane.as_mut().unwrap().mv = MoveState {
                alt: rank(40.0 + gap * id as f32),
                ..still(P(256.0 + id as f32, 256.0))
            };
        }
        step(&mut g);
        let left = |id: u8| g.player(id).unwrap().plane.map_or(0.0, |a| num(a.shield) + num(a.hull));
        (left(0), left(1))
    };
    assert_eq!(meet(0.0), (100.0, 100.0), "half of everything off both");
    assert_eq!(meet(30.0), (200.0, 200.0), "at different heights they pass");
}

#[test]
fn a_finished_match_only_flies_what_is_in_the_air() {
    let mut g = two_player_game();
    g.status = GameStatus::Finished;
    let before = tank(&g, 0);
    g.set_input(0, ahead(1, 1.0));
    g.projectiles.push(shell(1, ProjectileKind::Bullet, 0, P(250.0, 250.0), 0.0, 30.0, 10.0));
    step(&mut g);
    assert_eq!(tank(&g, 0), before);
    assert_eq!(P::of(g.projectiles[0].pos), P(251.0, 250.0));
    assert_eq!(Phase::schedule(GameStatus::Finished), vec![Phase::Projectiles]);
}

#[test]
fn who_stands_over_a_wreck_decides_it() {
    let mut g = two_player_game();
    let near = rank(1.0);
    let far = rank(100.0);
    assert_eq!(g.standoff(&vec![near, near, far, far], 0), Standoff::Contested);
    assert_eq!(g.standoff(&vec![near, far, far, far], 0), Standoff::Rescue);
    assert_eq!(g.standoff(&vec![far, near, far, far], 0), Standoff::Capture(1));
    assert_eq!(g.standoff(&vec![far, far, near, far], 0), Standoff::Deserted);
    damage(&mut g, 1, VehicleSlot::Tank, 100_000.0, 0, 0.0);
    assert_eq!(g.standoff(&vec![far, near, far, far], 0), Standoff::Deserted);
}

#[test]
fn the_upgrades_have_their_prices() {
    let mut g = two_player_game();
    for k in 0..8usize {
        let powerup = PowerUp::listed(k).unwrap();
        let cost = g.rules.prices.cost(powerup);
        g.player_mut(0).unwrap().credits = cost;
        buy(&mut g, 0, powerup);
        assert_eq!(g.player(0).unwrap().credits, 0);
        assert_eq!(powerup.index(), k);
        assert_eq!(powerup.held(g.player(0).unwrap().powerups), !powerup.is_consumable());
    }
    assert_eq!(PowerUp::listed(8), None);
    assert_eq!(g.rules.prices.cost(PowerUp::Bomber), BOMBER_PRICE);
    g.player_mut(0).unwrap().eliminated = true;
    g.events.clear();
    buy(&mut g, 0, PowerUp::MissilePack);
    assert!(matches!(
        g.events.last(),
        Some(GameEvent::PurchaseRejected { reason: RejectReason::Eliminated, .. })
    ));
}

#[test]
fn a_wedged_miner_backs_out_turning() {
    let mut g = two_player_game();
    let Game { rules, players, .. } = &mut g;
    let p = players[0].as_mut().unwrap();
    let asked = |stuck: f32, unstick: f32| Asked {
        throttle: rank(1.0),
        steer: rank(0.25),
        pace: 0,
        stuck_for: rank(stuck),
        unstick_for: rank(unstick),
    };
    assert_eq!(p.autopilot(rules, asked(0.5, 0.0)), (rank(1.0), rank(0.25)));
    assert_eq!(num(p.stuck_for), 0.5);
    // A second of it, and the next tick it backs out.
    p.autopilot(rules, asked(1.1, 0.0));
    assert_eq!((num(p.stuck_for), num(p.unstick_for)), (0.0, 1.0));
    assert_eq!(p.autopilot(rules, asked(0.1, 0.9)), (rank(-1.0), rank(1.0)));
    assert_eq!(num(p.unstick_for), 0.9);
}

#[test]
fn a_missile_burns_up_to_its_top_speed_and_no_further() {
    let mut g = two_player_game();
    g.hills.clear();
    fire_shell(&mut g, ProjectileKind::Missile, P(256.0, 256.0), 0.0);
    let top = rank(MISSILE_MAX_SPEED);
    assert_eq!(burn(&g.rules, top + 1), top);
    assert_eq!(burn(&g.rules, top - 1), top - 1);
    let mut f = flight(&g, &g.projectiles[0]);
    f.speed = rank(500.0);
    let was = g.projectiles[0];
    g.step_projectiles(&vec![f]);
    assert_eq!(g.projectiles.len(), 1);
    assert_eq!(g.projectiles[0].speed, top);
    assert_eq!((g.projectiles[0].id, g.projectiles[0].owner), (was.id, was.owner));
}

fn fire_shell(g: &mut Game, kind: ProjectileKind, at: P, yaw: f32) {
    g.projectiles.push(Projectile {
        id: 1,
        kind,
        owner: 0,
        pos: at.v(),
        yaw: rank(yaw),
        speed: rank(50.0),
        life: rank(3.0),
        alt: rank(30.0),
    });
}

#[test]
fn a_round_is_met_within_the_height_an_aircraft_is_met_at() {
    let hits = |gap: i32| {
        let mut g = two_player_game();
        g.hills.clear();
        launch_for(&mut g, 1);
        fire_shell(&mut g, ProjectileKind::Cannon, P(256.0, 256.0), 0.0);
        let mut f = flight(&g, &g.projectiles[0]);
        f.meetings[0] = Meeting { at: Some(rank(0.5)), height_gap: gap, ..f.meetings[0] };
        g.step_projectiles(&vec![f]).hits.len()
    };
    let level = bench_rules().same_height;
    assert_eq!(hits(level), 1);
    assert_eq!(hits(level + 1), 0, "passed by, above or below");
}

#[test]
fn a_push_never_goes_past_the_wall_or_speeds_anybody_up() {
    let mut g = two_player_game();
    let mut bodies = g.bodies();
    let speeds: Vec<i32> = bodies.iter().map(|_| rank(1000.0)).collect();
    for b in &mut bodies {
        b.pos = P(-50.0, WORLD + 50.0).v();
    }
    g.player_mut(0).unwrap().tank.as_mut().unwrap().mv.speed = rank(-5.0);
    g.settle_bodies(&bodies, &speeds);
    for id in 0..2u8 {
        let p = g.player(id).unwrap();
        let (tank, miner) = (p.tank.unwrap(), p.miner.unwrap());
        assert_eq!(tank.mv.pos, P(TANK_RADIUS, WORLD - TANK_RADIUS).v());
        assert_eq!(miner.mv.pos, P(MINER_RADIUS, WORLD - MINER_RADIUS).v());
    }
    assert_eq!(num(g.player(0).unwrap().tank.unwrap().mv.speed), 5.0);
    assert_eq!(num(g.player(1).unwrap().tank.unwrap().mv.speed), 0.0);
}

#[test]
fn mining_never_fills_a_deposit_or_overfills_a_hold() {
    let mut g = two_player_game();
    let held = |g: &Game| num(g.player(0).unwrap().miner.unwrap().cargo);
    g.mine(0, 0, rank(CARGO), rank(2000.0), rank(-3.0));
    assert_eq!((num(g.ore[0].amount), held(&g)), (900.0, 0.0));
    g.mine(0, 0, rank(CARGO), rank(-1.0), rank(CARGO + 9.0));
    assert_eq!((num(g.ore[0].amount), held(&g)), (0.0, CARGO));
    assert!(g.dirty_ore.contains(&0));
    g.unload(0, true, 7, rank(CARGO + 1.0));
    assert_eq!(held(&g), CARGO, "unloading never fills the hold");
    g.unload(0, true, 7, rank(12.5));
    let p = g.player(0).unwrap();
    assert_eq!((p.credits, p.ore_mined), (STARTING_CREDITS + 14, 14));
    assert_eq!(held(&g), 12.5);
}
