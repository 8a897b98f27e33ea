//! The client's view of the match: snapshots, prediction, the link, the
//! controls, and what is put on screen.

use std::f32::consts::PI;

use orewar::camera::{subject, Heights, Overview, Shot};
use orewar::controls::{controls_for, Bearing, Keys, LocalInput};
use orewar::game::{Hill, OreDeposit};
use orewar::link::{
    describe_event, reason_or_full, take_event, Answer, Elapsed, Link, Session, HANDSHAKE_RETRY,
    HANDSHAKE_UNANSWERED, SILENCE,
};
use orewar::measure::{MoveState, Vec2, ONE};
use orewar::predict::{Air, Correction, Prediction, MAX_INPUT_HISTORY, SNAP_THRESHOLD};
use orewar::protocol::{
    DenyReason, GameEvent, GameStatus, HitFx, HitKind, InputFrame, MinerMode, OreUpdate,
    PlaneSnapshot, PlayerInfo, PlayerSnapshot, PowerUp, ProjectileKind, ProjectileSnapshot,
    RejectReason, SentinelSnapshot, Snapshot, VehicleSlot, VehicleSnapshot,
};
use orewar::scene::{
    color_index, effect_turn, emplacement, hit_height, reconcile_views, show_hit, sim_to_world,
    sim_to_world_at, view_key, wanted_vehicles, world_to_sim, Effect, EffectTurn, Emplacement,
};
use orewar::state::{
    Blend, GameState, PlayerBlend, Pose, RenderPlayer, RenderVehicle, ShellBlend, LOG_LINES,
    MAX_SNAPSHOTS,
};
use orewar::wording::{Label, Wording};

fn rank(x: f32) -> i32 {
    let bits = x.to_bits();
    if bits >> 31 == 0 {
        bits as i32
    } else {
        -((bits & 0x7fff_ffff) as i32)
    }
}

fn num(r: i32) -> f32 {
    if r >= 0 {
        f32::from_bits(r as u32)
    } else {
        -f32::from_bits((-r) as u32)
    }
}

fn stamp(x: f64) -> i64 {
    x.to_bits() as i64
}

fn v2(x: f32, y: f32) -> Vec2 {
    Vec2 { x: rank(x), y: rank(y) }
}

const DT: f32 = 1.0 / 30.0;
const INTERP_DELAY: f64 = 0.1;

fn colors() -> Vec<String> {
    ["Red", "Blue", "Green", "Gold"].iter().map(|s| s.to_string()).collect()
}

fn wording() -> Wording {
    let label = |n: &str| Label { name: n.to_string(), description: format!("about {n}") };
    Wording {
        server_full: "the server is full".to_string(),
        match_finished: "the match is over".to_string(),
        name_taken: "that name is taken".to_string(),
        eliminated: "you are off the field".to_string(),
        already_owned: "already owned".to_string(),
        not_enough_credits: "not enough ore".to_string(),
        upgrades: ["Radar", "Shield", "Turbo", "Armor", "Turret", "Barrel", "Missiles", "Bomber"]
            .iter()
            .map(|n| label(n))
            .collect(),
    }
}

fn vehicle_at(x: f32) -> VehicleSnapshot {
    VehicleSnapshot {
        pos: v2(x, 0.0),
        yaw: 0,
        turret_yaw: 0,
        speed: 0,
        shield: 0,
        hull: 0,
        cargo: 0,
        disabled: false,
        capture_progress: 0,
    }
}

fn player(id: u8) -> PlayerSnapshot {
    PlayerSnapshot {
        id,
        connected: true,
        eliminated: false,
        credits: 0,
        ore_mined: 0,
        powerups: 0,
        missiles: 0,
        captures: 0,
        miner_mode: MinerMode::Auto,
        plane: None,
        plane_ready_in: 0,
        respawn_in: 0,
        tank: None,
        miner: None,
        sentinel: None,
    }
}

fn plane_at(x: f32, alt: f32) -> PlaneSnapshot {
    PlaneSnapshot {
        pos: v2(x, 0.0),
        yaw: 0,
        roll: rank(0.25),
        speed: rank(27.0),
        fuel: ONE,
        alt: rank(alt),
        shield: rank(50.0),
        hull: rank(60.0),
    }
}

fn empty(tick: u32) -> Snapshot {
    Snapshot {
        tick,
        status: GameStatus::Running,
        winner: None,
        acked_input: 0,
        players: Vec::new(),
        projectiles: Vec::new(),
        cheats: false,
        ore_is_full_sync: false,
        ore: Vec::new(),
        hits: Vec::new(),
    }
}

fn snapshot(tick: u32, x: f32) -> Snapshot {
    let mut p = player(0);
    p.tank = Some(vehicle_at(x));
    Snapshot { players: vec![p], ..empty(tick) }
}

fn push(s: &mut GameState, now: f64, snap: Snapshot) {
    let amounts: Vec<i32> = snap.ore.iter().map(|u| rank(u.amount as f32)).collect();
    s.push_snapshot(stamp(now), stamp(now + INTERP_DELAY), &amounts, snap);
}

fn mid(a: i32, b: i32, t: f32) -> i32 {
    rank(num(a) + (num(b) - num(a)) * t)
}

fn mid2(a: Vec2, b: Vec2, t: f32) -> Vec2 {
    Vec2 { x: mid(a.x, b.x, t), y: mid(a.y, b.y, t) }
}

fn slide(a: Option<VehicleSnapshot>, b: Option<VehicleSnapshot>, t: f32) -> RenderVehicle {
    let still = RenderVehicle::from_snapshot(&vehicle_at(0.0));
    match (a, b) {
        (Some(a), Some(b)) => RenderVehicle {
            pos: mid2(a.pos, b.pos, t),
            ..RenderVehicle::from_snapshot(&b)
        },
        (None, Some(b)) => RenderVehicle::from_snapshot(&b),
        _ => still,
    }
}

fn still_pose() -> Pose {
    Pose { pos: v2(0.0, 0.0), yaw: 0, roll: 0, alt: 0 }
}

/// Draws the world as it was at `target`.
fn draw(s: &mut GameState, target: f64, pose: Pose) {
    let pair = s.bracket(stamp(target));
    let blend = match pair {
        Some(i) => {
            let (a, b) = (&s.snapshots[i], &s.snapshots[i + 1]);
            let (from, to) = (f64::from_bits(a.at as u64), f64::from_bits(b.at as u64));
            let t = ((target - from) / (to - from)) as f32;
            let older = |id: u8| a.snapshot.players.iter().find(|p| p.id == id);
            Blend {
                players: b
                    .snapshot
                    .players
                    .iter()
                    .map(|p| PlayerBlend {
                        tank: slide(older(p.id).and_then(|o| o.tank), p.tank, t),
                        miner: slide(older(p.id).and_then(|o| o.miner), p.miner, t),
                        plane: slide(None, None, t),
                        sentinel_yaw: 0,
                    })
                    .collect(),
                shells: b
                    .snapshot
                    .projectiles
                    .iter()
                    .map(|p| {
                        let old = a.snapshot.projectiles.iter().find(|o| o.id == p.id).unwrap_or(p);
                        ShellBlend { pos: mid2(old.pos, p.pos, t), yaw: p.yaw }
                    })
                    .collect(),
            }
        }
        None => Blend { players: Vec::new(), shells: Vec::new() },
    };
    s.interpolate(pair, &blend, pose);
}

#[test]
fn positions_are_interpolated_between_snapshots() {
    let mut s = GameState::new();
    push(&mut s, 0.0, snapshot(1, 0.0));
    push(&mut s, 1.0, snapshot(2, 10.0));
    // Render time lands exactly halfway between the two.
    draw(&mut s, 0.5, still_pose());
    let x = num(s.render.players[0].unwrap().tank.unwrap().pos.x);
    assert!((x - 5.0).abs() < 1e-3, "expected the midpoint, got {x}");
}

#[test]
fn out_of_order_snapshots_are_discarded() {
    let mut s = GameState::new();
    push(&mut s, 0.0, snapshot(10, 100.0));
    push(&mut s, 0.1, snapshot(4, 0.0));
    assert_eq!(s.server_tick, 10, "an older snapshot must not overwrite a newer one");
}

#[test]
fn the_newest_snapshot_is_shown_before_the_buffer_fills() {
    let mut s = GameState::new();
    push(&mut s, 0.0, snapshot(1, 42.0));
    draw(&mut s, 0.0, still_pose());
    assert_eq!(num(s.render.players[0].unwrap().tank.unwrap().pos.x), 42.0);
}

/// One bench step of a hull.
fn stepped(mv: MoveState, frame: InputFrame, hills: &[Hill]) -> MoveState {
    let speed = (num(mv.speed) + 20.0 * num(frame.throttle) * DT).clamp(-22.0, 22.0);
    let yaw = num(mv.yaw) + num(frame.steer) * 1.8 * DT;
    let mut x = num(mv.pos.x) + yaw.cos() * speed * DT;
    let mut y = num(mv.pos.y) + yaw.sin() * speed * DT;
    for h in hills {
        let (hx, hy, r) = (num(h.pos.x), num(h.pos.y), num(h.radius));
        let d = ((x - hx).powi(2) + (y - hy).powi(2)).sqrt();
        if d < r {
            x = hx + (x - hx) / d * r;
            y = hy + (y - hy) / d * r;
        }
    }
    let alt = num(mv.alt) + 15.0 * num(frame.climb) * DT;
    MoveState {
        pos: v2(x, y),
        yaw: rank(yaw),
        speed: rank(speed),
        roll: mv.roll,
        alt: rank(alt),
    }
}

fn apply(p: &mut Prediction, frame: InputFrame, hills: &[Hill]) {
    let to = stepped(p.state, frame, hills);
    p.apply(frame, to);
}

fn reconcile(
    p: &mut Prediction,
    auth: VehicleSnapshot,
    slot: VehicleSlot,
    air: Air,
    acked: u32,
    hills: &[Hill],
) {
    let before = p.state;
    let anchor =
        MoveState { pos: auth.pos, yaw: auth.yaw, speed: auth.speed, roll: air.roll, alt: air.alt };
    let mut at = anchor;
    let mut path = Vec::new();
    for frame in p.to_replay(slot, acked) {
        at = stepped(at, frame, hills);
        path.push(at);
    }
    let off = |a: i32, b: i32| num(a) - num(b);
    let error = v2(off(before.pos.x, at.pos.x), off(before.pos.y, at.pos.y));
    let carried = MoveState {
        pos: v2(
            num(at.pos.x) - off(before.pos.x, p.previous.pos.x),
            num(at.pos.y) - off(before.pos.y, p.previous.pos.y),
        ),
        yaw: rank(num(at.yaw) - off(before.yaw, p.previous.yaw)),
        ..at
    };
    let c = Correction {
        path,
        carried,
        error,
        error_length: rank((num(error.x).powi(2) + num(error.y).powi(2)).sqrt()),
        yaw_error: rank(off(before.yaw, at.yaw)),
    };
    p.reconcile(&auth, slot, air, acked, &c);
}

fn no_air() -> Air {
    Air { roll: 0, alt: 0 }
}

fn drawn_at(p: &Prediction, alpha: f32) -> (f32, f32, f32) {
    let at = mid2(p.previous.pos, p.state.pos, alpha);
    (
        num(at.x) + num(p.offset.x),
        num(at.y) + num(p.offset.y),
        num(mid(p.previous.yaw, p.state.yaw, alpha)) + num(p.yaw_offset),
    )
}

fn drive(tick: u32, steer: f32) -> InputFrame {
    InputFrame {
        tick,
        controlling: VehicleSlot::Tank,
        throttle: rank(1.0),
        steer: rank(steer),
        ..Default::default()
    }
}

fn predicting(slot: VehicleSlot) -> Prediction {
    let mut p = Prediction::new();
    p.active = true;
    p.slot = slot;
    p
}

#[test]
fn a_frame_between_two_steps_is_drawn_between_two_positions() {
    let mut p = predicting(VehicleSlot::Tank);
    apply(&mut p, drive(1, 0.0), &[]);
    apply(&mut p, drive(2, 0.0), &[]);

    let (start, end) = (num(p.previous.pos.x), num(p.state.pos.x));
    assert!(end > start, "the tank has to have moved for this to mean anything");
    assert!((drawn_at(&p, 0.0).0 - start).abs() < 1e-4, "alpha 0 draws the older step");
    assert!((drawn_at(&p, 1.0).0 - end).abs() < 1e-4, "alpha 1 draws the newer step");
    assert!((drawn_at(&p, 0.5).0 - (start + end) * 0.5).abs() < 1e-4);
}

#[test]
fn a_correction_between_two_steps_does_not_jump_the_picture() {
    let run = || {
        let mut p = predicting(VehicleSlot::Tank);
        for tick in 1..=10u32 {
            apply(&mut p, drive(tick, 0.4), &[]);
        }
        p
    };
    // Where the server had it at tick 4, arrived at the same way.
    let mut authority = Prediction::new().state;
    for tick in 1..=4u32 {
        authority = stepped(authority, drive(tick, 0.4), &[]);
    }
    let auth = VehicleSnapshot {
        pos: authority.pos,
        yaw: authority.yaw,
        speed: authority.speed,
        ..vehicle_at(0.0)
    };
    for alpha in [0.0, 0.25, 0.5, 0.75] {
        let mut p = run();
        let before = drawn_at(&p, alpha);
        reconcile(&mut p, auth, VehicleSlot::Tank, no_air(), 4, &[]);
        let after = drawn_at(&p, alpha);
        assert!(
            (before.0 - after.0).abs() < 1e-3 && (before.1 - after.1).abs() < 1e-3,
            "a correction at alpha {alpha} moved the vehicle from {before:?} to {after:?}"
        );
        assert!((before.2 - after.2).abs() < 1e-3, "a correction at alpha {alpha} turned it");
    }
}

#[test]
fn replayed_inputs_reproduce_the_server_state() {
    // The hill is where the bench tank would be at the tenth tick.
    let hills = [Hill { pos: v2(5.0, 0.0), radius: rank(4.0) }];
    let mut p = predicting(VehicleSlot::Tank);
    for tick in 1..=10u32 {
        apply(&mut p, drive(tick, 0.0), &hills);
    }
    let predicted = p.state.pos;
    assert!(num(predicted.x) < 5.0, "the hill should have stopped it short");

    let mut authority = Prediction::new().state;
    for tick in 1..=4u32 {
        authority = stepped(authority, drive(tick, 0.0), &hills);
    }
    let auth = VehicleSnapshot {
        pos: authority.pos,
        yaw: authority.yaw,
        speed: authority.speed,
        ..vehicle_at(0.0)
    };
    reconcile(&mut p, auth, VehicleSlot::Tank, no_air(), 4, &hills);
    assert!((num(p.state.pos.x) - num(predicted.x)).abs() < 1e-4);
    assert!((num(p.state.pos.y) - num(predicted.y)).abs() < 1e-4);
    assert_eq!(p.history.len(), 6, "what has been confirmed is forgotten");
}

#[test]
fn an_impact_waits_for_the_world_to_catch_up_to_it() {
    let mut s = GameState::new();
    let arrived = 4.0;
    let hits = vec![HitFx::on_terrain(HitKind::Blast, v2(10.0, 10.0))];
    push(&mut s, arrived, Snapshot { hits, ..empty(1) });

    assert!(
        s.take_due_fx(stamp(arrived)).is_empty(),
        "drawn on arrival, before its tick is shown"
    );
    assert!(s.take_due_fx(stamp(arrived + INTERP_DELAY - 0.01)).is_empty(), "still early");
    assert_eq!(
        s.take_due_fx(stamp(arrived + INTERP_DELAY)).len(),
        1,
        "due once the world arrives"
    );
    assert!(s.take_due_fx(stamp(arrived + 10.0)).is_empty(), "and handed over only once");
}

#[test]
fn a_large_correction_snaps_instead_of_sliding() {
    let mut p = predicting(VehicleSlot::Tank);
    apply(&mut p, drive(1, 0.0), &[]);
    let auth = VehicleSnapshot { pos: v2(200.0, 200.0), ..vehicle_at(0.0) };
    reconcile(&mut p, auth, VehicleSlot::Tank, no_air(), 1, &[]);
    let at = drawn_at(&p, 1.0);
    assert!(
        (at.0 - 200.0).abs() < 1e-3 && (at.1 - 200.0).abs() < 1e-3,
        "a large error should be taken immediately, not eased into"
    );
    assert_eq!(num(SNAP_THRESHOLD), 7.0);
}

#[test]
fn switching_vehicles_restarts_prediction() {
    let mut p = predicting(VehicleSlot::Tank);
    let frame = InputFrame { controlling: VehicleSlot::Miner, ..drive(1, 0.0) };
    apply(&mut p, frame, &[]);
    assert!(!p.active, "prediction for the old vehicle must not keep running");
}

#[test]
fn prediction_climbs_with_the_yoke() {
    let mut p = predicting(VehicleSlot::Plane);
    p.state = MoveState {
        pos: v2(240.0, 240.0),
        yaw: 0,
        speed: rank(27.0),
        roll: 0,
        alt: rank(26.0),
    };
    let yoke = |climb: f32, tick: u32| InputFrame {
        tick,
        controlling: VehicleSlot::Plane,
        climb: rank(climb),
        ..Default::default()
    };
    for tick in 1..=10 {
        apply(&mut p, yoke(1.0, tick), &[]);
    }
    let climbed = num(p.state.alt);
    assert!(climbed > 27.0, "pulling back did not climb prediction: {climbed}");
    for tick in 11..=30 {
        apply(&mut p, yoke(-1.0, tick), &[]);
    }
    assert!(num(p.state.alt) < climbed, "pushing did not descend prediction");
    assert_ne!(
        p.previous.alt, p.state.alt,
        "there is nothing to interpolate between during a dive"
    );
}

#[test]
fn only_so_many_inputs_are_kept() {
    let mut p = predicting(VehicleSlot::Tank);
    for tick in 1..=200u32 {
        apply(&mut p, drive(tick, 0.0), &[]);
    }
    assert_eq!(p.history.len(), MAX_INPUT_HISTORY);
    assert_eq!(p.history[0].tick, 200 - MAX_INPUT_HISTORY as u32 + 1);
    assert_eq!(p.to_replay(VehicleSlot::Tank, 199).len(), 1);
    assert!(p.to_replay(VehicleSlot::Miner, 0).is_empty());
    p.decay(v2(1.0, 2.0), rank(0.5));
    assert_eq!((p.offset, p.yaw_offset), (v2(1.0, 2.0), rank(0.5)));
    p.follow(VehicleSlot::Plane);
    assert_eq!((p.slot, p.active), (VehicleSlot::Plane, false));
}

#[test]
fn a_snapshot_anchors_the_vehicle_being_driven() {
    let mut s = GameState::new();
    s.local_player = Some(0);
    s.set_predicted_slot(VehicleSlot::Plane);
    let mut p = player(0);
    p.plane = Some(plane_at(30.0, 55.0));
    p.powerups = 4;
    let snap = Snapshot { players: vec![p], acked_input: 9, ..empty(1) };
    let anchor = s.push_snapshot(0, 0, &Vec::new(), snap).unwrap();
    assert_eq!(anchor.slot, VehicleSlot::Plane);
    assert_eq!(anchor.vehicle.pos, v2(30.0, 0.0));
    assert_eq!((num(anchor.air.roll), num(anchor.air.alt)), (0.25, 55.0));
    assert_eq!((anchor.acked, anchor.powerups), (9, 4));

    // Nothing to anchor on where the vehicle is not there.
    s.set_predicted_slot(VehicleSlot::Tank);
    let gone = Snapshot { players: vec![player(0)], ..empty(2) };
    assert_eq!(s.push_snapshot(0, 0, &Vec::new(), gone), None);
    assert!(!s.prediction.active);
}

#[test]
fn a_snapshot_brings_the_ore_and_the_cheats() {
    let mut s = GameState::new();
    let ore = |x: f32| OreDeposit { pos: v2(x, 0.0), amount: rank(900.0), capacity: rank(900.0) };
    s.adopt_world(5, vec![ore(1.0), ore(2.0)], Vec::new());
    s.adopt_world(5, Vec::new(), Vec::new());
    assert_eq!(s.ore.len(), 2, "the same world is not built again");
    let updates = vec![OreUpdate { id: 1, amount: 40 }, OreUpdate { id: 7, amount: 1 }];
    push(&mut s, 0.0, Snapshot { ore: updates, cheats: true, ..empty(1) });
    assert_eq!(num(s.ore[0].amount), 900.0);
    assert_eq!(num(s.ore[1].amount), 40.0);
    assert!(s.cheats());
    assert_eq!(s.log.back().unwrap(), "Cheat mode ON");
    push(&mut s, 0.1, empty(2));
    assert_eq!(s.log.back().unwrap(), "Cheat mode off");
}

#[test]
fn only_so_much_is_kept() {
    let mut s = GameState::new();
    for k in 0..40u32 {
        push(&mut s, k as f64, snapshot(k + 1, 0.0));
        s.note(format!("line {k}"));
    }
    assert_eq!(s.snapshots.len(), MAX_SNAPSHOTS);
    assert_eq!(s.snapshots.back().unwrap().snapshot.tick, 40);
    assert_eq!(s.log.len(), LOG_LINES);
    assert_eq!(s.log.front().unwrap(), "line 34");
}

#[test]
fn a_new_match_starts_from_an_empty_buffer() {
    let mut s = GameState::new();
    push(&mut s, 0.0, Snapshot { hits: vec![HitFx::on_terrain(HitKind::Blast, v2(1.0, 1.0))], ..snapshot(1, 5.0) });
    s.prediction.active = true;
    s.winner = Some(2);
    s.begin_new_match(99, Vec::new(), Vec::new());
    assert_eq!(s.world_seed, Some(99));
    assert!(s.snapshots.is_empty() && s.pending_fx.is_empty());
    assert!(!s.prediction.active);
    assert_eq!(s.winner, None);
}

#[test]
fn the_predicted_vehicle_is_drawn_where_prediction_has_it() {
    let mut s = GameState::new();
    s.local_player = Some(0);
    let mut snap = snapshot(1, 5.0);
    snap.players[0].miner = Some(vehicle_at(7.0));
    push(&mut s, 0.0, snap);
    s.prediction.active = true;
    let pose = Pose { pos: v2(9.0, 9.0), yaw: rank(1.0), roll: 0, alt: 0 };
    draw(&mut s, 0.0, pose);
    let me = s.local().unwrap();
    assert_eq!(me.tank.unwrap().pos, v2(9.0, 9.0));
    assert_eq!(num(me.tank.unwrap().yaw), 1.0);
    assert_eq!(me.miner.unwrap().pos, v2(7.0, 0.0), "and nothing else moves");
}

#[test]
fn an_aircraft_is_drawn_at_its_height() {
    let mut s = GameState::new();
    let mut p = player(0);
    p.plane = Some(plane_at(3.0, 64.0));
    push(&mut s, 0.0, Snapshot { players: vec![p], ..empty(1) });
    draw(&mut s, 0.0, still_pose());
    let plane = s.render.players[0].unwrap().plane.unwrap();
    assert_eq!(num(plane.alt), 64.0);
    assert_eq!(num(plane.roll), 0.25);
    assert_eq!(plane.cargo, ONE, "the fuel rides where a miner's load does");
}

#[test]
fn shells_slide_between_snapshots() {
    let shell = |x: f32| ProjectileSnapshot {
        id: 4,
        kind: ProjectileKind::Cannon,
        owner: 1,
        pos: v2(x, 0.0),
        yaw: rank(0.5),
        alt: rank(30.0),
    };
    let mut s = GameState::new();
    push(&mut s, 0.0, Snapshot { projectiles: vec![shell(0.0)], ..empty(1) });
    push(&mut s, 1.0, Snapshot { projectiles: vec![shell(8.0)], ..empty(2) });
    draw(&mut s, 0.25, still_pose());
    let drawn = s.render.projectiles[0];
    assert_eq!((drawn.id, num(drawn.pos.x), num(drawn.alt)), (4, 2.0, 30.0));
}

#[test]
fn a_player_is_called_by_name_or_by_colour() {
    let mut s = GameState::new();
    s.roster = vec![PlayerInfo { id: 2, name: "Ash".to_string(), connected: true }];
    assert_eq!(s.name_of(2, &colors()), "Ash");
    assert_eq!(s.name_of(1, &colors()), "Blue");
    assert_eq!(s.name_of(5, &colors()), "Blue");
}

#[test]
fn a_refusal_is_reported_at_once() {
    let mut link = Session::new();
    assert_eq!(
        link.verdict(Answer::Denied(Some(DenyReason::NameTaken))),
        Some(Err(DenyReason::NameTaken))
    );
    assert_eq!(link.link, Link::Denied(DenyReason::NameTaken));
    assert_eq!(reason_or_full(None), DenyReason::ServerFull);
}

#[test]
fn an_acceptance_lets_the_game_start() {
    let mut link = Session::new();
    assert_eq!(link.verdict(Answer::Accepted), Some(Ok(())));
}

#[test]
fn a_server_that_says_nothing_is_not_a_refusal() {
    let mut link = Session::new();
    assert_eq!(link.verdict(Answer::Other), None);
    let mut s = GameState::new();
    let duty = link.keep_up(
        &mut s,
        Elapsed { since_request: stamp(0.15), since_handshake: stamp(0.15), since_heard: 0 },
    );
    assert!(!duty.warn && !duty.reset);
    assert_eq!(link.link, Link::Connecting);
}

#[test]
fn the_handshake_is_retried_and_silence_drops_the_link() {
    let mut s = GameState::new();
    let mut link = Session::new();
    let asked = |r: i64, h: i64, heard: i64| Elapsed {
        since_request: r,
        since_handshake: h,
        since_heard: heard,
    };
    assert!(!link.keep_up(&mut s, asked(HANDSHAKE_RETRY - 1, 0, 0)).request);
    assert!(link.keep_up(&mut s, asked(HANDSHAKE_RETRY, 0, 0)).request);
    assert!(link.keep_up(&mut s, asked(0, HANDSHAKE_UNANSWERED, 0)).warn);
    assert!(!link.keep_up(&mut s, asked(0, HANDSHAKE_UNANSWERED, 0)).warn, "said once");
    link.accepted(&mut s, 1, 42, Vec::new(), Vec::new(), &colors());
    assert!(link.connected());
    assert_eq!((s.local_player, s.world_seed), (Some(1), Some(42)));
    assert_eq!(s.log.back().unwrap(), "Connected as Blue");
    assert!(!link.keep_up(&mut s, asked(0, 0, SILENCE)).reset);
    assert!(link.keep_up(&mut s, asked(0, 0, SILENCE + 1)).reset);
    assert_eq!(link.link, Link::Connecting);
}

#[test]
fn a_welcome_adopts_the_world_it_names() {
    let mut s = GameState::new();
    let mut link = Session::new();
    let hill = Hill { pos: v2(3.0, 4.0), radius: rank(5.0) };
    link.welcome(&mut s, 2, 7, Vec::new(), vec![hill]);
    assert!(link.connected());
    assert_eq!((s.local_player, s.world_seed, s.hills.len()), (Some(2), Some(7), 1));
    // The same world again is not built again.
    link.welcome(&mut s, 3, 7, Vec::new(), Vec::new());
    assert_eq!((s.local_player, s.hills.len()), (Some(3), 1));
}

#[test]
fn a_refused_link_says_why_and_stays_refused() {
    let mut s = GameState::new();
    let mut link = Session::new();
    link.denied(&mut s, Some(DenyReason::MatchFinished), &wording());
    assert_eq!(s.log.back().unwrap(), "Rejected: the match is over");
    let duty = link.keep_up(
        &mut s,
        Elapsed { since_request: SILENCE, since_handshake: SILENCE, since_heard: SILENCE + 1 },
    );
    assert!(!duty.request && !duty.warn && !duty.reset);
    assert_eq!(link.link, Link::Denied(DenyReason::MatchFinished));
}

fn told(s: &GameState, e: GameEvent) -> Option<String> {
    describe_event(s, e, &colors(), &wording())
}

#[test]
fn events_are_told_from_where_you_stand() {
    let mut s = GameState::new();
    s.local_player = Some(0);
    s.roster = vec![
        PlayerInfo { id: 0, name: "Ash".to_string(), connected: true },
        PlayerInfo { id: 1, name: "Bo".to_string(), connected: true },
    ];
    for (event, line) in [
        (
            GameEvent::PurchaseAccepted { powerup: PowerUp::Radar, credits: 40 },
            "Bought Radar (40 ore left)",
        ),
        (
            GameEvent::PurchaseRejected {
                powerup: PowerUp::Bomber,
                reason: RejectReason::NotEnoughCredits,
            },
            "Cannot buy Bomber: not enough ore",
        ),
        (GameEvent::TankDestroyed { player: 0, by: 0 }, "You wrecked your own tank"),
        (GameEvent::TankDestroyed { player: 1, by: 1 }, "Bo wrecked their own tank"),
        (GameEvent::TankDestroyed { player: 0, by: 1 }, "Your tank was destroyed by Bo"),
        (GameEvent::TankDestroyed { player: 1, by: 0 }, "Ash destroyed Bo's tank"),
        (GameEvent::TankRespawned { player: 0 }, "Your tank is back on the field"),
        (GameEvent::MinerDisabled { player: 0 }, "Your miner is disabled -- defend it!"),
        (GameEvent::MinerDisabled { player: 1 }, "Bo's miner is disabled"),
        (GameEvent::MinerRescued { player: 0 }, "Your miner is back online"),
        (GameEvent::MinerRescued { player: 1 }, "Bo rescued their miner"),
        (GameEvent::SentinelDestroyed { player: 0 }, "Your base gun is down"),
        (GameEvent::SentinelDestroyed { player: 1 }, "Bo's base gun is down"),
        (GameEvent::SentinelRebuilt { player: 0 }, "Your base gun is back"),
        (GameEvent::OreSeized { by: 0, from: 1, amount: 42 }, "Seized 42 ore from Bo"),
        (GameEvent::OreSeized { by: 1, from: 0, amount: 42 }, "Bo seized your 42 ore"),
        (GameEvent::OreSeized { by: 1, from: 2, amount: 7 }, "Bo seized 7 ore from Green"),
        (GameEvent::MinerCaptured { by: 1, from: 0 }, "Bo captured Ash's miner"),
        (GameEvent::PlayerEliminated { player: 0 }, "Miner lost -- back in 60s"),
        (GameEvent::PlayerEliminated { player: 1 }, "Bo is down for a minute"),
        (
            GameEvent::PlayerReturned { player: 0 },
            "You are back, with your upgrades and nothing else",
        ),
        (GameEvent::PlayerReturned { player: 1 }, "Bo is back on the field"),
        (GameEvent::GameOver { winner: 0 }, "You win!"),
        (GameEvent::GameOver { winner: 1 }, "Bo wins the match"),
        (GameEvent::MatchReset { world_seed: 3, by: 0 }, "You started a new match"),
        (GameEvent::MatchReset { world_seed: 3, by: 1 }, "Bo started a new match"),
    ] {
        assert_eq!(told(&s, event).as_deref(), Some(line));
    }
    assert_eq!(told(&s, GameEvent::TankRespawned { player: 1 }), None);
    assert_eq!(told(&s, GameEvent::SentinelRebuilt { player: 1 }), None);

    take_event(
        &mut s,
        GameEvent::MatchReset { world_seed: 77, by: 1 },
        Vec::new(),
        Vec::new(),
        &colors(),
        &wording(),
    );
    assert_eq!(s.world_seed, Some(77));
    assert_eq!(s.log.back().unwrap(), "Bo started a new match");
}

fn hull() -> RenderVehicle {
    RenderVehicle::from_snapshot(&vehicle_at(4.0))
}

fn me(tank: bool, miner: bool, plane: bool) -> RenderPlayer {
    RenderPlayer {
        id: 0,
        connected: true,
        eliminated: false,
        credits: 0,
        ore_mined: 0,
        powerups: PowerUp::Bomber.bit(),
        missiles: 0,
        captures: 0,
        miner_mode: MinerMode::Auto,
        respawn_in: 0,
        tank: if tank { Some(hull()) } else { None },
        miner: if miner { Some(hull()) } else { None },
        sentinel: None,
        plane: if plane { Some(RenderVehicle { alt: rank(30.0), ..hull() }) } else { None },
        plane_ready_in: 0,
    }
}

fn keys() -> Keys {
    Keys {
        forward: false,
        back: false,
        left: false,
        right: false,
        space: false,
        fire: false,
        mouse_left: false,
        mouse_right: false,
        alt: false,
        cheat: false,
        launch: false,
        tab: false,
        build: false,
        digits: vec![false; 8],
    }
}

#[test]
fn only_the_pause_menu_takes_the_controls_away() {
    let playing = controls_for(false, false);
    assert!(playing.live);
    assert!(playing.mouse_fires, "the mouse fires when nothing else wants it");

    let looking = controls_for(false, true);
    assert!(looking.live, "the overview put the vehicle down");
    assert!(!looking.mouse_fires, "dragging the map would also have fired");

    for overview in [false, true] {
        let paused = controls_for(true, overview);
        assert!(!paused.live, "the menu left the controls live");
        assert!(!paused.mouse_fires, "a click on a menu item was a trigger pull");
    }
}

#[test]
fn the_keys_drive_what_there_is() {
    let mut input = LocalInput::new();
    let player = me(true, true, false);
    let held = Keys { forward: true, left: true, mouse_left: true, ..keys() };
    input.gather(&held, false, false, true, Some(&player));
    assert_eq!((num(input.throttle), num(input.steer)), (1.0, -1.0));
    assert!(input.fire_primary && !input.fire_secondary);

    // With the overview up the mouse is for the map; the keys still fire.
    input.gather(&held, false, true, true, Some(&player));
    assert!(!input.fire_primary);
    let spaced = Keys { space: true, ..keys() };
    input.gather(&spaced, false, true, true, Some(&player));
    assert!(input.fire_primary);

    // The menu stops everything.
    input.gather(&held, true, false, true, Some(&player));
    assert_eq!((input.throttle, input.steer, input.fire_primary), (0, 0, false));

    let wishes = input.gather(&Keys { tab: true, ..keys() }, false, false, true, Some(&player));
    assert_eq!(input.controlling, VehicleSlot::Miner);
    assert_eq!(wishes.follow, Some(VehicleSlot::Miner));
    // The miner is gone, so the tank is what is left.
    input.gather(&keys(), false, false, true, Some(&me(true, false, false)));
    assert_eq!(input.controlling, VehicleSlot::Tank);
}

#[test]
fn in_the_air_the_keys_are_a_yoke_and_detents() {
    let mut input = LocalInput::new();
    let up = me(true, true, true);
    input.controlling = VehicleSlot::Plane;
    let mut held = Keys { back: true, ..keys() };
    held.digits[4] = true;
    let wishes = input.gather(&held, false, false, true, Some(&up));
    assert!(wishes.purchases.is_empty());
    assert_eq!(num(input.climb), 1.0, "pull back to come up");
    assert_eq!(num(input.throttle), 1.0, "five is full");
    input.gather(&keys(), false, false, true, Some(&up));
    assert_eq!(num(input.throttle), 1.0, "a detent holds");
    let mut slow = Keys { forward: true, ..keys() };
    slow.digits[0] = true;
    input.gather(&slow, false, false, true, Some(&up));
    assert_eq!((num(input.climb), num(input.throttle)), (-1.0, -1.0));
}

#[test]
fn wishes_reach_the_server() {
    let mut input = LocalInput::new();
    let player = me(true, true, false);
    let alt_c = Keys { alt: true, cheat: true, ..keys() };
    assert!(input.gather(&alt_c, false, false, true, Some(&player)).toggle_cheats);
    assert!(!input.gather(&alt_c, false, false, false, Some(&player)).toggle_cheats);

    let wishes = input.gather(&Keys { launch: true, ..keys() }, false, false, true, Some(&player));
    assert!(wishes.launch && input.awaiting_sortie);
    // It comes up, and the controls are already in it.
    input.gather(&keys(), false, false, true, Some(&me(true, true, true)));
    assert_eq!(input.controlling, VehicleSlot::Plane);
    assert!(!input.awaiting_sortie);

    let mut buying = Keys { build: true, ..keys() };
    input.gather(&buying, false, false, true, Some(&player));
    assert!(input.build_menu);
    buying.build = false;
    buying.digits[2] = true;
    let wishes = input.gather(&buying, false, false, true, Some(&player));
    assert_eq!(wishes.purchases, [PowerUp::Turbo]);
}

#[test]
fn frames_are_numbered_and_aimed() {
    let mut input = LocalInput::new();
    input.aim_at(Some(Bearing { angle: rank(1.25), reach: rank(10.0) }));
    assert_eq!(num(input.aim), 1.25);
    input.aim_at(Some(Bearing { angle: rank(2.0), reach: 0 }));
    input.aim_at(None);
    assert_eq!(num(input.aim), 1.25, "there is nothing to aim at under the hull itself");
    assert_eq!(input.next_frame(false), None);
    let first = input.next_frame(true).unwrap();
    let second = input.next_frame(true).unwrap();
    assert_eq!((first.tick, second.tick), (1, 2));
    assert_eq!(num(second.aim), 1.25);
}

#[test]
fn world_and_sim_round_trip() {
    let p = v2(12.5, -33.25);
    assert_eq!(world_to_sim(sim_to_world(p)), p);
    assert_eq!(world_to_sim(sim_to_world_at(p, rank(9.0))), p);
}

/// A heading on the field, in the drawn world.
fn heading(yaw: f32) -> [f32; 3] {
    let w = sim_to_world(v2(yaw.cos(), yaw.sin()));
    [num(w.x), num(w.y), num(w.z)]
}

fn cross_up(h: [f32; 3]) -> [f32; 3] {
    [-h[2], 0.0, h[0]]
}

#[test]
fn sim_perp_is_screen_right() {
    for step in 0..32 {
        let yaw = step as f32 * 2.0 * PI / 32.0;
        let w = sim_to_world(v2(-yaw.sin(), yaw.cos()));
        let perp = [num(w.x), num(w.y), num(w.z)];
        let right = cross_up(heading(yaw));
        for k in 0..3 {
            assert!((perp[k] - right[k]).abs() < 1e-5, "yaw {yaw}: {perp:?} against {right:?}");
        }
    }
}

#[test]
fn increasing_yaw_turns_right() {
    let (before, after) = (heading(0.0), heading(0.15));
    let right = cross_up(before);
    let moved: f32 = (0..3).map(|k| (after[k] - before[k]) * right[k]).sum();
    assert!(moved > 0.0, "a positive yaw change should move the heading rightward");
}

#[test]
fn the_screen_settles_on_what_is_there() {
    let mut s = GameState::new();
    s.render.players[0] = Some(me(true, false, true));
    s.render.players[2] = Some(RenderPlayer { id: 2, ..me(false, true, false) });
    let wanted = wanted_vehicles(&s);
    let which: Vec<(u8, VehicleSlot)> = wanted.iter().map(|w| (w.player, w.slot)).collect();
    assert_eq!(
        which,
        [(0, VehicleSlot::Tank), (0, VehicleSlot::Plane), (2, VehicleSlot::Miner)]
    );
    let keys: Vec<u16> = wanted.iter().map(|w| view_key(w.player, w.slot)).collect();
    let shown = vec![view_key(0, VehicleSlot::Tank), view_key(1, VehicleSlot::Tank)];
    let changes = reconcile_views(&shown, &keys);
    assert_eq!(changes.retire, [view_key(1, VehicleSlot::Tank)]);
    assert_eq!(changes.spawn, keys[1..]);
    assert_eq!(view_key(255, VehicleSlot::Plane), 767);
    assert_eq!((color_index(1), color_index(7)), (1, 3));
}

#[test]
fn an_emplacement_is_a_gun_or_a_heap() {
    let mut s = GameState::new();
    assert_eq!(emplacement(&s, 0), Emplacement::Hidden);
    assert_eq!(emplacement(&s, 9), Emplacement::Hidden);
    let mut snap = snapshot(1, 0.0);
    snap.players[0].sentinel = Some(SentinelSnapshot { hull: 1, turret_yaw: rank(0.75) });
    push(&mut s, 0.0, snap);
    draw(&mut s, 0.0, still_pose());
    assert_eq!(emplacement(&s, 0), Emplacement::Gun(rank(0.75)));
    push(&mut s, 0.1, snapshot(2, 0.0));
    draw(&mut s, 9.0, still_pose());
    assert_eq!(emplacement(&s, 0), Emplacement::Rubble);
    s.render.players[0].as_mut().unwrap().eliminated = true;
    assert_eq!(emplacement(&s, 0), Emplacement::Hidden);
}

#[test]
fn a_hull_under_fire_has_one_flash() {
    let mut s = GameState::new();
    s.render.players[0] = Some(me(true, false, true));
    let mut effects: Vec<Effect> = Vec::new();
    let on = |slot: VehicleSlot, angle: f32| {
        HitFx::on_vehicle(HitKind::Shield, v2(1.0, 1.0), rank(angle), 0, slot)
    };
    let blast = HitFx::on_terrain(HitKind::Blast, v2(1.0, 1.0));
    assert_eq!(show_hit(&mut effects, on(VehicleSlot::Tank, 0.5)), None);
    assert_eq!(show_hit(&mut effects, blast), None);
    assert_eq!(show_hit(&mut effects, blast), None);
    assert_eq!(show_hit(&mut effects, on(VehicleSlot::Plane, 0.25)), None);
    effects[0].age = rank(0.1);
    assert_eq!(show_hit(&mut effects, on(VehicleSlot::Tank, 2.0)), Some(0));
    assert_eq!(effects.len(), 4);
    assert_eq!((effects[0].age, num(effects[0].angle)), (0, 2.0));

    assert_eq!(hit_height(&s, &blast), 0);
    assert_eq!(num(hit_height(&s, &on(VehicleSlot::Plane, 0.0))), 30.0);
    assert_eq!(hit_height(&s, &on(VehicleSlot::Tank, 0.0)), 0);

    assert_eq!(effect_turn(&s, &effects[1], rank(0.5)), EffectTurn::Swells);
    assert_eq!(effect_turn(&s, &effects[1], ONE), EffectTurn::Gone);
    assert_eq!(effect_turn(&s, &effects[0], 0), EffectTurn::Rides(hull()));
    s.render.players[0] = None;
    assert_eq!(effect_turn(&s, &effects[0], 0), EffectTurn::Gone);
}

#[test]
fn the_camera_lifts_to_the_overview() {
    let heights = Heights { working: rank(120.0), whole: rank(400.0) };
    let base = v2(40.0, 40.0);
    let mut o = Overview { toggled: false, active: false, centre: v2(0.0, 0.0), height: 0 };
    let player = me(true, true, true);
    assert_eq!(
        o.shot(Some(&player), VehicleSlot::Plane),
        Shot::Chase { pos: hull().pos, yaw: 0, lift: rank(30.0) }
    );
    assert_eq!(
        o.shot(Some(&me(true, false, false)), VehicleSlot::Plane),
        Shot::Chase { pos: hull().pos, yaw: 0, lift: 0 }
    );
    assert_eq!(o.shot(None, VehicleSlot::Tank), Shot::Field);
    assert_eq!(subject(Some(&me(false, true, false)), VehicleSlot::Tank).unwrap().1, VehicleSlot::Miner);

    let place = Some(v2(8.0, 9.0));
    o.raise(true, true, false, place, base, heights);
    assert!(!o.active, "the menu has the keys");
    o.raise(false, true, false, place, base, heights);
    assert_eq!(
        o.shot(Some(&player), VehicleSlot::Tank),
        Shot::Overview { centre: v2(8.0, 9.0), height: rank(120.0) }
    );
    assert!(o.reads_mouse(false, true) && !o.reads_mouse(true, true) && !o.reads_mouse(false, false));
    o.frame(v2(1.0, 1.0), rank(200.0));
    assert_eq!((o.centre, num(o.height)), (v2(1.0, 1.0), 200.0));
    o.raise(false, true, false, place, base, heights);
    assert!(!o.active);

    // Off the field it comes up on its own, over the player's own corner.
    o.raise(false, false, true, None, base, heights);
    assert_eq!((o.active, o.centre, num(o.height)), (true, base, 400.0));
    o.raise(false, true, true, None, base, heights);
    assert!(o.active, "and cannot be put away");
}

#[test]
fn a_client_that_has_heard_nothing_predicts_nothing() {
    let p = GameState::new().prediction;
    assert!(!p.active && p.history.is_empty());
    assert_eq!(p.slot, VehicleSlot::Tank);
    assert_eq!((p.state, p.previous), (p.previous, p.state));
    assert_eq!((p.state.pos, p.state.speed, p.state.alt), (Vec2 { x: 0, y: 0 }, 0, 0));
    assert_eq!((p.offset, p.yaw_offset), (Vec2 { x: 0, y: 0 }, 0));
}
