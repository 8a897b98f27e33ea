//! The server's handling of connections, orders and its log, the command line,
//! and the clock.

use orewar::clock::{TickClock, CATCH_UP};
use orewar::console::{
    name_hash, parse_args, parse_server_args, report, Parsed,
};
use orewar::game::{Game, OreDeposit};
use orewar::measure::Vec2;
use orewar::protocol::{
    DenyReason, GameEvent, GameStatus, InputFrame, MinerMode, PowerUp, RejectReason, VehicleSlot,
    DEFAULT_PORT, TICK_HZ,
};
use orewar::rules::{Capacity, Corner, Gun, Prices, Rules};
use orewar::server::{
    Order, PlayerStatus, Reply, Server, Status, DUPLICATE_WINDOW, LOG_KEPT, TIMEOUT,
};
use orewar::text::{decimal, parse_u16, parse_u64, trim};
use orewar::wording::{Label, Wording};

fn corner(id: i32) -> Corner {
    let at = Vec2 { x: 100 + id, y: 200 + id };
    Corner { base: at, inward: id, tank_start: at, miner_start: at, post: at, post_inward: id }
}

fn rules() -> Rules {
    let gun = Gun { cooldown: 1, speed: 1, life: 1 };
    let holds = Capacity { shield: 10, hull: 20 };
    Rules {
        starting_credits: 5,
        starting_missiles: 2,
        starting_powerups: 0,
        missiles_per_pack: 3,
        prices: Prices {
            radar: 60,
            shield_booster: 61,
            turbo: 62,
            miner_armor: 63,
            auto_turret: 64,
            long_barrel: 65,
            missile_pack: 66,
        },
        starting_tank: holds,
        starting_miner: holds,
        corners: (0..4).map(corner).collect(),
        color_names: ["Red", "Blue", "Green", "Gold"].iter().map(|s| s.to_string()).collect(),
        world_size: 1000,
        ore_sync_interval: 30,
        projectile_budget: 4,
        hit_budget: 4,
        plane_cruise: 5,
        plane_altitude: 6,
        tank_radius: 1,
        miner_radius: 1,
        plane_radius: 1,
        sentinel_radius: 1,
        tank_wall: 999,
        miner_wall: 999,
        same_height: 1,
        sentinel_hull: 9,
        sentinel_rebuild: 9,
        sentinel_range: 9,
        sentinel_gun: gun,
        auto_turret_range: 9,
        auto_turret_gun: gun,
        tank_gun: gun,
        missile: gun,
        missile_max_speed: 9,
        cannon: gun,
        bomb_cooldown: 1,
        bullet_damage: 1,
        missile_damage: 1,
        cannon_damage: 1,
        missile_seek_range: 1,
        missile_seek_cone: 1,
        bomb_blast_radius: 1,
        mining_radius: 1,
        mining_max_speed: 1,
        capture_radius: 1,
        impact_threshold: 1,
        home_arrival: 1,
        deposit_arrival: 1,
        stall_speed: 1,
    }
}

fn wording() -> Wording {
    let label = |n: &str| Label { name: n.to_string(), description: format!("about {n}") };
    Wording {
        server_full: "the server is full".to_string(),
        match_finished: "the match is over".to_string(),
        name_taken: "that name is taken".to_string(),
        eliminated: "you are off the field".to_string(),
        already_owned: "already owned".to_string(),
        not_enough_credits: "not enough ore".to_string(),
        upgrades: ["Radar", "Shield", "Turbo", "Armor", "Turret", "Barrel", "Missiles", "Bomber"]
            .iter()
            .map(|n| label(n))
            .collect(),
    }
}

fn server(seed: u64) -> Server {
    Server::new(Game::new(rules(), seed, Vec::new(), Vec::new()))
}

/// Nobody has been heard from for a while.
fn quiet(s: &Server) -> Vec<i64> {
    vec![DUPLICATE_WINDOW + 1; s.connections.len()]
}

fn connect(s: &mut Server, peer: u64, token: u64, name: &str) -> Reply {
    let q = quiet(s);
    s.connect(peer, &format!("10.0.0.{peer}:5000"), token, name, &q, &wording())
}

fn tick(s: &mut Server) {
    let ages = vec![0; s.game.players.len()];
    s.game.begin_step(&ages);
}

#[test]
fn the_log_keeps_the_recent_lines_and_drains_once() {
    let mut server = server(1);
    for i in 0..LOG_KEPT + 50 {
        server.note(format!("line {i}"));
    }
    let lines = server.drain_log();
    assert_eq!(lines.len(), LOG_KEPT);
    assert_eq!(lines.last().unwrap(), &format!("line {}", LOG_KEPT + 49));
    assert!(server.drain_log().is_empty());
}

#[test]
fn a_pump_never_asks_for_more_than_one_tick() {
    let tick: u64 = 1_000_000_000 / TICK_HZ as u64;
    let clock = TickClock { next: 50 * tick, tick };
    assert_eq!(clock.rest(0), tick);
    assert_eq!(clock.rest(49 * tick + 5), tick - 5);
    assert_eq!(clock.rest(51 * tick), 0, "a tick is due already");
}

#[test]
fn a_match_starts_when_a_second_player_joins() {
    let mut s = server(7);
    assert_eq!(connect(&mut s, 1, 11, "One"), Reply::Welcome(0));
    tick(&mut s);
    assert_eq!(s.game.status, GameStatus::Waiting);
    assert_eq!(
        connect(&mut s, 2, 22, "Two"),
        Reply::Welcome(1),
        "the second player should get slot 1"
    );
    tick(&mut s);
    assert_eq!(s.game.status, GameStatus::Running);
    assert_eq!(s.game.roster().len(), 2, "both players should appear");
}

#[test]
fn an_unaffordable_purchase_is_rejected() {
    let mut s = server(3);
    connect(&mut s, 1, 8, "Buyer");
    let holds = Capacity { shield: 10, hull: 20 };
    s.obey(0, Order::Purchase { powerup: PowerUp::Radar, tank_holds: holds, miner_holds: holds });
    let told = s.bulletin();
    assert!(told.events.contains(&GameEvent::PurchaseRejected {
        powerup: PowerUp::Radar,
        reason: RejectReason::NotEnoughCredits,
    }));
    assert!(
        !PowerUp::Radar.held(s.game.player(0).unwrap().powerups),
        "a refused purchase must not be granted"
    );
}

#[test]
fn reconnecting_with_the_same_token_resumes_the_same_player() {
    let mut s = server(1234);
    connect(&mut s, 1, 111, "One");
    connect(&mut s, 2, 222, "Two");
    tick(&mut s);
    assert_eq!(s.game.status, GameStatus::Running);
    let somewhere = Vec2 { x: 777, y: 888 };
    s.game.player_mut(0).unwrap().tank.as_mut().unwrap().mv.pos = somewhere;

    // Come back from a different address entirely.
    assert_eq!(
        connect(&mut s, 9, 111, "One"),
        Reply::Welcome(0),
        "the same token must resume the same slot"
    );
    assert_eq!(
        s.game.player(0).unwrap().tank.unwrap().mv.pos,
        somewhere,
        "the vehicle should still be where it was left"
    );
    assert_eq!(s.connection_of(1), None, "the old connection is retired");
    assert_eq!(s.connections.len(), 2);
}

#[test]
fn a_request_sent_again_gets_the_same_answer() {
    let mut s = server(1);
    assert_eq!(connect(&mut s, 4, 1, "Ash"), Reply::Welcome(0));
    s.drain_log();
    assert_eq!(connect(&mut s, 4, 1, "Ash"), Reply::Again(0));
    assert_eq!(s.connections.len(), 1);
    assert!(s.drain_log().is_empty(), "and nothing else happens");
}

#[test]
fn a_second_window_under_one_name_is_turned_away() {
    let mut s = server(1);
    connect(&mut s, 1, 1, "Ash");
    s.drain_log();
    let heard = vec![0];
    assert_eq!(
        s.connect(2, "10.0.0.2:5000", 1, "Ash", &heard, &wording()),
        Reply::Deny(DenyReason::NameTaken)
    );
    assert_eq!(
        s.drain_log(),
        ["refused 10.0.0.2:5000: Ash is already playing from another window"]
    );
    assert_eq!((s.connections.len(), s.connections[0].peer), (1, 1), "the first is left alone");
    assert_eq!(s.game.roster().len(), 1);
    // One that has gone quiet can be started again, and takes over.
    connect(&mut s, 7, 7, "Bo");
    s.drain_log();
    assert_eq!(connect(&mut s, 2, 1, "Ash"), Reply::Welcome(0));
    let served: Vec<(u64, u8)> = s.connections.iter().map(|c| (c.peer, c.player_id)).collect();
    assert_eq!(served, [(7, 1), (2, 0)]);
    assert_eq!(s.drain_log(), ["player 0 (Ash) connected from 10.0.0.2:5000"]);
}

#[test]
fn a_refusal_says_who_and_why() {
    let mut s = server(1);
    connect(&mut s, 1, 1, "Ash");
    s.drain_log();
    assert_eq!(connect(&mut s, 2, 2, "Ash"), Reply::Deny(DenyReason::NameTaken));
    assert_eq!(s.drain_log(), ["refused 10.0.0.2:5000 (\"Ash\"): that name is taken"]);
    // The name is shown escaped, whatever was sent.
    s.game.status = GameStatus::Finished;
    assert_eq!(connect(&mut s, 3, 3, "a\n\"b\""), Reply::Deny(DenyReason::MatchFinished));
    assert_eq!(s.drain_log(), ["refused 10.0.0.3:5000 (\"a\\n\\\"b\\\"\"): the match is over"]);
}

#[test]
fn a_full_server_says_so() {
    let mut s = server(5);
    for i in 0..4u64 {
        assert_eq!(connect(&mut s, i, 900 + i, &format!("Player {i}")), Reply::Welcome(i as u8));
    }
    assert_eq!(connect(&mut s, 9, 12_345, "Latecomer"), Reply::Deny(DenyReason::ServerFull));
    assert_eq!(s.connections.len(), 4);
}

#[test]
fn a_player_without_a_name_is_called_by_their_colour() {
    let mut s = server(5);
    connect(&mut s, 1, 1, "");
    assert_eq!(s.game.roster()[0].name, "Red");
}

#[test]
fn orders_reach_the_match() {
    let mut s = server(1);
    connect(&mut s, 1, 1, "Ash");
    connect(&mut s, 2, 2, "Bo");
    s.drain_log();
    assert!(!s.obey(0, Order::ToggleCheats));
    assert!(s.game.cheats);
    s.obey(0, Order::SetMinerMode(MinerMode::Home));
    assert_eq!(s.game.player(0).unwrap().miner_mode, MinerMode::Home);
    let frame = InputFrame { tick: 3, controlling: VehicleSlot::Miner, ..Default::default() };
    s.obey_unreliable(1, Order::Input(frame));
    assert_eq!(s.game.player(1).unwrap().input, frame);
    // Anything but input is ignored where delivery is not promised.
    s.obey_unreliable(1, Order::ToggleCheats);
    assert!(s.game.cheats);
    let holds = Capacity { shield: 7, hull: 8 };
    s.obey(0, Order::Purchase { powerup: PowerUp::Bomber, tank_holds: holds, miner_holds: holds });
    s.obey(0, Order::LaunchPlane { holds });
    assert_eq!(s.game.player(0).unwrap().plane.unwrap().hull, 8);

    assert!(s.obey(0, Order::Leave));
    assert_eq!(s.connection_of(1), None);
    assert!(!s.game.player(0).unwrap().connected);
    assert_eq!(s.drain_log(), ["player 0 left"]);
    assert!(s.disconnected(2));
    assert!(!s.disconnected(2));
    assert_eq!(s.drain_log(), ["player 1 disconnected"]);
}

#[test]
fn a_new_match_owes_everybody_the_whole_field() {
    let mut s = server(1);
    connect(&mut s, 1, 1, "Ash");
    connect(&mut s, 2, 2, "Bo");
    for at in 0..2 {
        assert!(s.full_ore_for(at, false), "a newcomer has seen nothing yet");
        assert!(!s.full_ore_for(at, false));
        assert!(s.full_ore_for(at, true), "and everybody is told now and then");
    }
    s.drain_log();
    let ore = vec![OreDeposit { pos: Vec2 { x: 1, y: 2 }, amount: 3, capacity: 4 }];
    s.obey(1, Order::NewGame { seed: 42, ore: ore.clone(), hills: Vec::new() });
    assert_eq!(s.game.ore, ore);
    assert_eq!(s.seed(), 42);
    assert!(s.full_ore_for(0, false) && s.full_ore_for(1, false));
    s.new_match(255, 77, Vec::new(), Vec::new());
    assert!(s.full_ore_for(0, false) && s.full_ore_for(1, false));
    assert_eq!(
        s.drain_log(),
        ["player 1 started a new match (seed 42)", "the host started a new match (seed 77)"]
    );
    assert!(s.bulletin().events.contains(&GameEvent::MatchReset { world_seed: 77, by: 255 }));
}

#[test]
fn a_silent_client_is_dropped_and_its_state_kept() {
    let mut s = server(1);
    connect(&mut s, 1, 1, "Ash");
    connect(&mut s, 2, 2, "Bo");
    s.drain_log();
    assert_eq!(s.first_silent(&vec![TIMEOUT, TIMEOUT]), None);
    assert_eq!(s.first_silent(&vec![0, TIMEOUT + 1]), Some(1));
    s.game.player_mut(1).unwrap().credits = 321;
    s.time_out(1, "10.0.0.2:5000");
    assert_eq!(s.drain_log(), ["player 1 timed out (10.0.0.2:5000); state retained"]);
    assert_eq!(s.game.player(1).unwrap().credits, 321);
    assert!(!s.game.player(1).unwrap().connected);
    assert_eq!(s.goodbye(), [1]);
    assert!(s.connections.is_empty());
}

#[test]
fn a_bulletin_is_sent_once() {
    let mut s = server(1);
    connect(&mut s, 1, 1, "Ash");
    let told = s.bulletin();
    assert!(told.events.contains(&GameEvent::PlayerJoined { player: 0 }));
    assert_eq!(told.roster.unwrap()[0].name, "Ash");
    assert!(told.full_ore, "the first tick is one of every thirty");
    s.game.tick = 31;
    let again = s.bulletin();
    assert!(again.events.is_empty());
    assert!(again.roster.is_none());
    assert!(!again.full_ore);
}

#[test]
fn the_periodic_line_says_who_is_in_it() {
    let player = |id: u8, name: &str, connected: bool, rtt_ms: Option<u32>| PlayerStatus {
        id,
        name: name.to_string(),
        ore_mined: 10 + id as u32,
        captures: id,
        connected,
        rtt_ms,
    };
    let status = Status {
        seed: 1,
        tick: 90,
        state: GameStatus::Running,
        players: vec![
            player(0, "Ash", true, Some(23)),
            player(1, "Bo", true, None),
            player(2, "Cy", false, Some(9)),
        ],
    };
    assert_eq!(
        report(&status),
        "tick 90 | Running | Ash#0 ore 10 cap 0 23ms | Bo#1 ore 11 cap 1 | Cy#2 ore 12 cap 2 (offline)"
    );
}

#[test]
fn the_status_is_everybody_in_the_match() {
    let mut s = server(6);
    connect(&mut s, 1, 1, "Ash");
    connect(&mut s, 2, 2, "Bo");
    s.disconnected(1);
    let status = s.status(&vec![40]);
    assert_eq!(status.seed, 6);
    assert_eq!(status.players.len(), 2);
    assert_eq!(status.players[0].rtt_ms, None);
    assert!(!status.players[0].connected);
    assert_eq!(status.players[1].rtt_ms, Some(40));
}

fn args(words: &[&str]) -> Vec<String> {
    words.iter().map(|w| w.to_string()).collect()
}

#[test]
fn the_server_is_told_where_to_listen() {
    match parse_server_args(&args(&[]), DEFAULT_PORT, 9) {
        Parsed::Run(a) => assert_eq!((a.bind.as_str(), a.port, a.seed), ("0.0.0.0", 45701, 9)),
        _ => panic!("nothing asked for is not a mistake"),
    }
    match parse_server_args(&args(&["--bind", "::", "--port", "8000", "--seed", "12"]), 1, 2) {
        Parsed::Run(a) => assert_eq!((a.bind.as_str(), a.port, a.seed), ("::", 8000, 12)),
        _ => panic!("every option is one of its own"),
    }
    assert!(matches!(parse_server_args(&args(&["-h"]), 1, 2), Parsed::Help));
    assert!(matches!(parse_server_args(&args(&["--help"]), 1, 2), Parsed::Help));
    for (words, why) in [
        (&["--port"][..], "--port needs a value"),
        (&["--port", "70000"][..], "--port must be a number"),
        (&["--seed", "x"][..], "--seed must be a number"),
        (&["--loud"][..], "unrecognized argument: --loud"),
    ] {
        match parse_server_args(&args(words), 1, 2) {
            Parsed::Wrong(e) => assert_eq!(e, why),
            _ => panic!("{words:?} should have been refused"),
        }
    }
}

#[test]
fn the_client_is_told_who_to_be() {
    match parse_args(&args(&["--server", "host:1", "--name", "Ash", "--token", "7"])) {
        Parsed::Run(a) => {
            assert_eq!(a.server.as_deref(), Some("host:1"));
            assert_eq!(a.name.as_deref(), Some("Ash"));
            assert_eq!(a.token, Some(7));
            assert_eq!(a.token_file, None);
        }
        _ => panic!("every option is one of its own"),
    }
    match parse_args(&args(&["--token-file", "id.txt"])) {
        Parsed::Run(a) => assert_eq!(a.token_file.as_deref(), Some("id.txt")),
        _ => panic!("a token can be kept in a file"),
    }
    assert!(matches!(parse_args(&args(&["--name", "x", "--help"])), Parsed::Help));
    for (words, why) in [
        (&["--name"][..], "--name needs a value"),
        (&["--token", "-1"][..], "--token must be a number"),
        (&["extra"][..], "unrecognized argument: extra"),
    ] {
        match parse_args(&args(words)) {
            Parsed::Wrong(e) => assert_eq!(e, why),
            _ => panic!("{words:?} should have been refused"),
        }
    }
}

#[test]
fn a_name_maps_to_a_stable_identity() {
    assert_eq!(name_hash("Ash"), name_hash("Ash"));
    assert_ne!(name_hash("Ash"), name_hash("Bo"));
    assert_eq!(name_hash(""), 0xcbf2_9ce4_8422_2325);
    assert_eq!(name_hash("a"), 12_642_967_877_113_212_044);
}

#[test]
fn the_clock_catches_up_and_then_gives_up() {
    let mut clock = TickClock { next: 100, tick: 10 };
    assert!(!clock.due(99));
    assert!(clock.due(100));
    assert!(clock.stepped(105));
    assert_eq!(clock.next, 110);
    // So far behind that catching up would take longer than it is worth.
    let late = 200 + CATCH_UP;
    assert!(!clock.stepped(late));
    assert_eq!(clock.next, late);
}

#[test]
fn numbers_read_back() {
    for n in [0u64, 7, 10, 45701, 999, u64::MAX] {
        assert_eq!(decimal(n), n.to_string());
        assert_eq!(parse_u64(&decimal(n)), Some(n));
    }
    assert_eq!(parse_u64("18446744073709551616"), None);
    assert_eq!(parse_u64(""), None);
    assert_eq!(parse_u64("+12"), Some(12));
    assert_eq!(parse_u64("1 2"), None);
    assert_eq!(parse_u16("65535"), Some(65535));
    assert_eq!(parse_u16("65536"), None);
    assert_eq!(trim(" \t Ash\u{3000}\r\n"), "Ash");
}
