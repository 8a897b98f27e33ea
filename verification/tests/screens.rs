//! The connect screen, the menu, the hud, and the host's window.

use orewar::connect::{
    address_text, prefer_ipv4, recall, refusal, remember, settle_address, type_into, Address,
    Asked, ConnectForm, FieldId, Identity, Key, Turn, ADDRESS_LIMIT, NAME_LIMIT, QUIET,
};
use orewar::console::Args;
use orewar::hosting::{
    after_pump, describe, join_at, player_text, summary_text, AfterPump, Field, Live, SetupForm,
    LOG_SHOWN,
};
use orewar::hud::{
    banner_text, bar_value, build_text, contacts, log_lines, miner_text, panels, plane_text,
    radar_view, roster_text, status_text, tank_text, Figures, Gauges, HudBar,
};
use orewar::link::{Link, Session};
use orewar::measure::Vec2;
use orewar::menu::{miner_panel, mode_pressed, step, MenuItem, MenuState, Use, ITEMS};
use orewar::protocol::{
    DenyReason, GameStatus, MinerMode, PlayerInfo, PowerUp, VehicleSlot, DEFAULT_PORT,
};
use orewar::rules::Prices;
use orewar::server::{PlayerStatus, Status};
use orewar::state::{GameState, RenderPlayer, RenderVehicle};
use orewar::wording::{Label, Wording};

fn v4(port: u16) -> Address {
    Address::V4 { ip: 0x7f00_0001, port }
}

fn v6(port: u16) -> Address {
    Address::V6 { ip: 1, port }
}

fn wording() -> Wording {
    let label = |n: &str| Label { name: n.to_string(), description: format!("about {n}") };
    Wording {
        server_full: "the server is full".to_string(),
        match_finished: "the match is over".to_string(),
        name_taken: "that name is taken".to_string(),
        eliminated: "you are off the field".to_string(),
        already_owned: "already owned".to_string(),
        not_enough_credits: "not enough ore".to_string(),
        upgrades: ["Radar", "Shield", "Turbo", "Armor", "Auto", "Long", "Missiles", "Bomber"]
            .iter()
            .map(|n| label(n))
            .collect(),
    }
}

#[test]
fn ipv4_wins_when_the_resolver_lists_ipv6_first() {
    assert_eq!(prefer_ipv4(&vec![v6(45701), v4(45701)]), Some(v4(45701)));
}

#[test]
fn ipv6_is_used_when_it_is_all_there_is() {
    assert_eq!(prefer_ipv4(&vec![v6(45701)]), Some(v6(45701)));
}

#[test]
fn nothing_resolved_is_not_a_panic() {
    assert_eq!(prefer_ipv4(&vec![]), None);
}

#[test]
fn an_empty_box_means_this_machine() {
    assert_eq!(address_text("   "), "127.0.0.1:45701");
    assert_eq!(settle_address("   ", Some(vec![v4(DEFAULT_PORT)])), Ok(v4(DEFAULT_PORT)));
}

#[test]
fn a_bare_address_gains_the_default_port() {
    assert_eq!(address_text("127.0.0.1"), "127.0.0.1:45701");
    assert_eq!(address_text("127.0.0.1:45999"), "127.0.0.1:45999");
}

#[test]
fn an_ipv6_literal_keeps_its_shape() {
    assert_eq!(address_text("::1"), "[::1]:45701");
    assert_eq!(address_text("[::1]:45999"), "[::1]:45999");
    assert_eq!(address_text("[::1]"), "[::1]:45701");
}

#[test]
fn a_name_that_resolves_to_nothing_is_reported_not_panicked() {
    assert_eq!(
        settle_address(" no-such-host.invalid ", None),
        Err("Cannot find no-such-host.invalid".to_string())
    );
    assert_eq!(settle_address("host", Some(vec![])), Err("No address for host".to_string()));
}

#[test]
fn control_characters_are_not_typed() {
    let mut field = String::from("Ash");
    type_into(&mut field, "\r", NAME_LIMIT);
    type_into(&mut field, "\t", NAME_LIMIT);
    assert_eq!(field, "Ash");
}

#[test]
fn connect_a_field_stops_at_its_limit() {
    let mut field = String::new();
    type_into(&mut field, &"x".repeat(100), NAME_LIMIT);
    assert_eq!(field.chars().count(), NAME_LIMIT);
}

#[test]
fn the_limit_counts_characters() {
    let mut field = String::new();
    type_into(&mut field, &"\u{4e2d}".repeat(30), NAME_LIMIT);
    assert_eq!(field.chars().count(), NAME_LIMIT);
}

#[test]
fn connect_tab_walks_between_the_two_fields() {
    assert_eq!(FieldId::Server.other(), FieldId::Name);
    assert_eq!(FieldId::Name.other(), FieldId::Server);
    assert_eq!((FieldId::Server.limit(), FieldId::Name.limit()), (ADDRESS_LIMIT, NAME_LIMIT));
    assert_eq!((FieldId::Server.label(), FieldId::Name.label()), ("Server", "Name"));
}

fn no_args() -> Args {
    Args { server: None, name: None, token: None, token_file: None }
}

#[test]
fn the_form_fills_itself_in() {
    let form = ConnectForm::new(no_args(), None, Some("a-very-long-account-name".to_string()));
    assert_eq!(form.field(FieldId::Server), "127.0.0.1:45701");
    assert_eq!(form.field(FieldId::Name), "a-very-long-account-");
    assert!(!form.auto);
    assert_eq!(form.focus, FieldId::Name);

    let remembered = Some(("host".to_string(), "Bo".to_string()));
    let form = ConnectForm::new(no_args(), remembered.clone(), Some("x".to_string()));
    assert_eq!((form.field(FieldId::Server), form.field(FieldId::Name)), ("host", "Bo"));

    let given = Args { name: Some("Ash".to_string()), ..no_args() };
    let form = ConnectForm::new(given, remembered, None);
    assert_eq!((form.field(FieldId::Server), form.field(FieldId::Name)), ("host", "Ash"));
    assert!(form.auto, "a command line that named a player presses the button");
}

#[test]
fn what_worked_is_recalled() {
    let text = remember("host:1", "Ash");
    assert_eq!(text, "host:1\nAsh\n");
    assert_eq!(recall(&text), Some(("host:1".to_string(), "Ash".to_string())));
    assert_eq!(recall(" host \r\n Bo \r\n"), Some(("host".to_string(), "Bo".to_string())));
    assert_eq!(recall("host"), Some(("host".to_string(), String::new())));
    assert_eq!(recall("\nAsh"), None);
    assert_eq!(recall(""), None);
}

#[test]
fn an_identity_is_settled_in_order() {
    let mut form = ConnectForm::new(no_args(), None, None);
    assert!(matches!(form.identity(), Identity::Unnamed));
    form.name = "  Ash ".to_string();
    assert!(matches!(form.identity(), Identity::Name(n) if n == "Ash"));
    form.token_file = Some("id".to_string());
    assert!(matches!(form.identity(), Identity::File(p) if p == "id"));
    form.token = Some(8);
    assert!(matches!(form.identity(), Identity::Token(8)));
}

#[test]
fn keys_edit_the_form_until_it_is_sent() {
    let mut form = ConnectForm::new(no_args(), None, None);
    assert_eq!(form.press(Key::Typed("Asx".to_string())), Asked::Nothing);
    form.press(Key::Backspace);
    form.press(Key::Typed("h".to_string()));
    assert_eq!(form.value_text(FieldId::Name), "Ash|");
    form.press(Key::Walk);
    assert_eq!(form.focus, FieldId::Server);
    assert_eq!(form.value_text(FieldId::Name), "Ash");
    assert_eq!(form.button_text(), "Connect");
    assert_eq!(form.press(Key::Enter), Asked::Submit);
    assert_eq!(form.press(Key::Escape), Asked::Cancel);

    form.started("1.2.3.4:5");
    assert_eq!(form.status, "Connecting to 1.2.3.4:5...");
    assert_eq!(form.button_text(), "Connecting...");
    form.press(Key::Backspace);
    form.press(Key::Typed("zzz".to_string()));
    assert_eq!(form.field(FieldId::Server), "127.0.0.1:45701", "the fields are taken");
    assert!(!form.focused(FieldId::Server));
}

#[test]
fn the_screen_watches_the_handshake() {
    let w = wording();
    let mut form = ConnectForm::new(no_args(), None, None);
    assert_eq!(form.turn(false, false, None, 0, 0, &w), Turn::Stay);
    assert_eq!(form.turn(true, false, None, 0, 0, &w), Turn::Start);
    form.started("1.2.3.4:5");
    assert_eq!(form.turn(true, false, Some(Link::Connecting), 0, 0, &w), Turn::Stay);
    assert_eq!(form.turn(false, false, Some(Link::Connecting), QUIET, 4, &w), Turn::Stay);
    assert_eq!(
        form.status,
        "No reply from 1.2.3.4:5 after 4s. Is the server running, and is it listening on that \
         address? A server on 0.0.0.0 cannot hear an IPv6 client. Esc to stop and edit."
    );
    assert!(form.trouble);
    assert_eq!(form.turn(false, true, Some(Link::Connecting), 0, 0, &w), Turn::Drop);
    assert_eq!((form.status.as_str(), form.trouble), ("Stopped trying", false));

    form.started("1.2.3.4:5");
    let denied = Some(Link::Denied(DenyReason::ServerFull));
    assert_eq!(form.turn(false, false, denied, 0, 0, &w), Turn::Drop);
    assert_eq!(form.status, "Refused: the server is full");
    assert_eq!(form.attempt, None);
    assert_eq!(
        refusal(DenyReason::NameTaken, &w),
        "Somebody is already playing under that name. A name is an identity here, so two clients \
         cannot share one. Try another."
    );
    form.started("1.2.3.4:5");
    assert_eq!(form.turn(false, false, Some(Link::Connected), 0, 0, &w), Turn::Play);

    form.failed("Cannot find x".to_string());
    assert_eq!((form.status.as_str(), form.trouble), ("Cannot find x", true));
    form.no_socket("denied");
    assert_eq!(form.status, "Could not open a socket: denied");

    let mut auto = ConnectForm::new(Args { token: Some(1), ..no_args() }, None, None);
    assert_eq!(auto.turn(false, false, None, 0, 0, &w), Turn::Start);
    assert_eq!(auto.turn(false, false, None, 0, 0, &w), Turn::Stay, "pressed once");
}

#[test]
fn stepping_never_stops_on_a_disabled_item() {
    for start in 0..ITEMS {
        for delta in [1, -1] {
            let mut at = start;
            for _ in 0..ITEMS * 2 {
                at = step(at, delta);
                assert!(MenuItem::at(at).enabled(), "landed on {}", MenuItem::at(at).label());
            }
        }
    }
}

#[test]
fn stepping_is_reversible() {
    assert_eq!(step(step(0, 1), -1), 0);
    assert_eq!(step(step(3, -1), 1), 3);
}

#[test]
fn only_settings_is_disabled() {
    let disabled: Vec<_> =
        (0..ITEMS).map(MenuItem::at).filter(|i| !i.enabled()).map(|i| i.label()).collect();
    assert_eq!(disabled, ["Settings"]);
}

#[test]
fn the_menu_opens_walks_and_chooses() {
    let idle = Use { down: false, up: false, enter: false, hovered: None, clicked: false };
    let mut menu = MenuState::new();
    assert_eq!(menu.update(Use { enter: true, ..idle }), None, "a closed menu chooses nothing");
    let mut build_menu = true;
    menu.toggle(&mut build_menu);
    assert!(!menu.open && !build_menu, "the build menu is put away first");
    menu.toggle(&mut build_menu);
    assert!(menu.open && !build_menu && menu.is_lit(MenuItem::Resume));
    assert_eq!(menu.update(Use { down: true, ..idle }), None);
    assert!(menu.is_lit(MenuItem::NewGame));
    menu.update(Use { down: true, ..idle });
    assert!(menu.is_lit(MenuItem::Quit), "settings is passed over");
    assert_eq!(menu.update(Use { enter: true, ..idle }), Some(MenuItem::Quit));
    let over = Use { hovered: Some(MenuItem::Resume), clicked: true, ..idle };
    assert_eq!(menu.update(over), None);
    assert!(!menu.open, "resuming is closing");
    menu.toggle(&mut build_menu);
    let over = Use { hovered: Some(MenuItem::NewGame), clicked: true, ..idle };
    assert_eq!(menu.update(over), Some(MenuItem::NewGame));
    assert!(!menu.open);
}

fn hull() -> RenderVehicle {
    RenderVehicle {
        pos: Vec2 { x: 11, y: 12 },
        yaw: 13,
        roll: 0,
        alt: 0,
        speed: 0,
        turret_yaw: 0,
        shield: 21,
        hull: 22,
        cargo: 23,
        disabled: false,
        capture_progress: 24,
    }
}

fn player(id: u8) -> RenderPlayer {
    RenderPlayer {
        id,
        connected: true,
        eliminated: false,
        credits: 100,
        ore_mined: 250,
        powerups: 0,
        missiles: 3,
        captures: 1,
        miner_mode: MinerMode::Home,
        respawn_in: 0,
        tank: Some(hull()),
        miner: Some(hull()),
        sentinel: None,
        plane: None,
        plane_ready_in: 0,
    }
}

fn playing() -> GameState {
    let mut s = GameState::new();
    s.local_player = Some(0);
    s.status = GameStatus::Running;
    s.roster = vec![PlayerInfo { id: 0, name: "Ash".to_string(), connected: true }];
    s.render.players[0] = Some(player(0));
    s
}

fn colors() -> Vec<String> {
    ["Red", "Blue", "Green", "Gold"].iter().map(|s| s.to_string()).collect()
}

fn gauges() -> Gauges {
    Gauges {
        shield: 80,
        max_shield: 100,
        hull: 70,
        max_hull: 120,
        cargo: 15,
        max_cargo: 60,
        capture_percent: 45,
    }
}

#[test]
fn the_miner_panel_floats_over_the_miner() {
    let mut p = player(0);
    assert_eq!(miner_panel(Some(&p)), Some((Vec2 { x: 11, y: 12 }, MinerMode::Home)));
    p.miner = None;
    assert_eq!(miner_panel(Some(&p)), None);
    assert_eq!(miner_panel(None), None);
    assert_eq!(mode_pressed(MinerMode::Stop, MinerMode::Home, true), Some(MinerMode::Stop));
    assert_eq!(mode_pressed(MinerMode::Home, MinerMode::Home, true), None);
    assert_eq!(mode_pressed(MinerMode::Stop, MinerMode::Home, false), None);
}

#[test]
fn the_status_panel_reads_as_it_should() {
    let mut s = playing();
    let mut session = Session::new();
    let f = Figures { rtt_ms: 31, loss_percent: 2, fuel_seconds: 48, airspeed: 27 };
    let show = |s: &GameState, session: &Session, slot: VehicleSlot| {
        status_text(s, session, "host:1", slot, f, &colors(), &wording())
    };
    assert_eq!(
        show(&s, &session, VehicleSlot::Tank),
        "OREWAR  Ash\nconnecting to host:1\nore 100   mined 250\ndriving: TANK\n\n\
         WASD drive | mouse aim | LMB gun | RMB missile\n\
         TAB swap vehicle | B build | O overview | ESC menu"
    );
    session.link = Link::Connected;
    s.render.players[0].as_mut().unwrap().powerups = PowerUp::Bomber.bit();
    assert!(show(&s, &session, VehicleSlot::Miner)
        .contains("\n31 ms  |  2% loss\nore 100   mined 250\ndriving: MINER\nsortie: ready  [G]\n\n"));
    s.render.players[0].as_mut().unwrap().plane_ready_in = 12;
    assert!(show(&s, &session, VehicleSlot::Tank).contains("\nsortie: ready in 12s\n\n"));
    s.render.players[0].as_mut().unwrap().plane = Some(hull());
    let up = show(&s, &session, VehicleSlot::Plane);
    assert!(up.contains("driving: BOMBER\nsortie: 48s of fuel   27 kts\n\nWASD fly | LMB drop bombs\n"));
    s.cheats = true;
    assert!(show(&s, &session, VehicleSlot::Plane)
        .contains("\nsortie: fuel unlimited   27 kts\nCHEATS ON  [Alt-C]\n\n"));
    session.link = Link::Denied(DenyReason::ServerFull);
    assert!(show(&s, &session, VehicleSlot::Plane).contains("\nrefused: the server is full\n"));
}

#[test]
fn the_vehicle_panels_read_as_they_should() {
    let mut p = player(0);
    assert_eq!(tank_text(Some(&p), gauges()), "shield 80/100   hull 70/120\nmissiles 3");
    assert_eq!(miner_text(Some(&p), gauges()), "shield 80/100   hull 70/120\ncargo 15/60");
    p.miner.as_mut().unwrap().disabled = true;
    assert_eq!(
        miner_text(Some(&p), gauges()),
        "shield 80/100   hull 70/120\ncargo 15/60\nDISABLED -- capture 45%"
    );
    assert_eq!(plane_text(Some(&p), gauges()), None);
    p.plane = Some(hull());
    assert_eq!(plane_text(Some(&p), gauges()).as_deref(), Some("shield 80/100   hull 70/120"));
    p.tank = None;
    p.miner = None;
    assert_eq!(tank_text(Some(&p), gauges()), "destroyed -- respawning");
    assert_eq!(miner_text(Some(&p), gauges()), "captured");
}

#[test]
fn the_roster_says_who_has_what() {
    let mut s = playing();
    assert_eq!(roster_text(&s, 0, &colors(), &wording()), "Ash  ore 250  caps 1");
    assert_eq!(roster_text(&s, 1, &colors(), &wording()), "--");
    let p = s.render.players[0].as_mut().unwrap();
    p.connected = false;
    p.eliminated = true;
    p.powerups = PowerUp::Radar.bit() | PowerUp::Turbo.bit();
    assert_eq!(
        roster_text(&s, 0, &colors(), &wording()),
        "Ash (offline)  ore 250  caps 1  [RT]  OUT"
    );
    s.note("one".to_string());
    s.note("two".to_string());
    assert_eq!(log_lines(&s), "one\ntwo");
}

#[test]
fn the_build_menu_says_what_things_cost() {
    let prices = Prices {
        radar: 60,
        shield_booster: 120,
        turbo: 90,
        miner_armor: 95,
        auto_turret: 96,
        long_barrel: 97,
        missile_pack: 98,
    };
    let mut p = player(0);
    p.powerups = PowerUp::Turbo.bit();
    let text = build_text(Some(&p), false, &prices, &wording());
    let lines: Vec<&str> = text.split('\n').collect();
    assert_eq!(lines.len(), 8);
    assert_eq!(lines[0], "1. Radar             60 ore                 about Radar");
    assert_eq!(lines[1], "2. Shield            120 ore (short 20)     about Shield");
    assert_eq!(lines[2], "3. Turbo             OWNED                  about Turbo");
    assert_eq!(lines[7], "8. Bomber            1000 ore (short 900)   about Bomber");
    let free = build_text(Some(&p), true, &prices, &wording());
    assert!(free.starts_with("1. Radar             free                   about Radar\n"));
}

#[test]
fn the_banner_says_the_one_thing_worth_saying() {
    let mut s = playing();
    assert_eq!(banner_text(&s, &colors()), "");
    assert!(!panels(&s, false).banner);
    s.render.players[0].as_mut().unwrap().respawn_in = 31;
    assert_eq!(banner_text(&s, &colors()), "MINER LOST\nBACK IN 31");
    assert!(panels(&s, false).banner);
    s.status = GameStatus::Waiting;
    assert_eq!(banner_text(&s, &colors()), "WAITING FOR ANOTHER PLAYER");
    s.status = GameStatus::Finished;
    s.winner = Some(0);
    assert_eq!(banner_text(&s, &colors()), "YOU WIN");
    s.winner = Some(1);
    assert_eq!(banner_text(&s, &colors()), "BLUE WINS");
    s.roster.push(PlayerInfo { id: 1, name: "stra\u{df}e".to_string(), connected: true });
    assert_eq!(banner_text(&s, &colors()), "STRASSE WINS");
}

#[test]
fn panels_and_bars_follow_the_player() {
    let mut s = playing();
    let shown = panels(&s, true);
    assert!(shown.build_menu && !shown.radar && !shown.plane);
    {
        let p = s.render.players[0].as_mut().unwrap();
        p.powerups = PowerUp::Radar.bit();
        p.plane = Some(RenderVehicle { shield: 31, hull: 32, ..hull() });
    }
    let shown = panels(&s, false);
    assert!(!shown.build_menu && shown.radar && shown.plane);
    let me = s.local();
    assert_eq!(bar_value(HudBar::TankShield, me), Some(21));
    assert_eq!(bar_value(HudBar::TankHull, me), Some(22));
    assert_eq!(bar_value(HudBar::MinerCargo, me), Some(23));
    assert_eq!(bar_value(HudBar::Capture, me), Some(0), "not a wreck");
    assert_eq!(bar_value(HudBar::PlaneShield, me), Some(31));
    assert_eq!(bar_value(HudBar::PlaneHull, me), Some(32));
    assert_eq!(bar_value(HudBar::TankHull, None), None);
}

#[test]
fn the_radar_shows_every_hull_on_the_ground() {
    let mut s = playing();
    s.render.players[2] = Some(RenderPlayer { tank: None, ..player(2) });
    let seen = contacts(&s);
    let which: Vec<(u8, bool)> = seen.iter().map(|c| (c.player, c.is_me)).collect();
    assert_eq!(which, [(0, true), (0, true), (2, false)]);
    let p = player(0);
    assert_eq!(radar_view(Some(&p), VehicleSlot::Tank), None, "not bought yet");
    let p = RenderPlayer { powerups: PowerUp::Radar.bit(), ..p };
    assert_eq!(radar_view(Some(&p), VehicleSlot::Plane), Some((Vec2 { x: 11, y: 12 }, 13)));
}

#[test]
fn an_explicit_address_is_the_one_shown() {
    assert_eq!(
        join_at("192.168.1.50:45701", false, Some("10.0.0.9".to_string()), 45701),
        "192.168.1.50:45701"
    );
}

#[test]
fn listening_everywhere_becomes_an_address_somebody_can_use() {
    for outward in [Some("10.0.0.9".to_string()), None] {
        let shown = join_at("0.0.0.0:45701", true, outward, 45701);
        assert!(shown.ends_with(":45701"), "{shown}");
        assert!(!shown.starts_with("0.0.0.0"), "{shown}");
    }
}

#[test]
fn only_digits_are_typed() {
    let mut field = String::new();
    orewar::hosting::type_into(&mut field, "4a5.7", 5);
    assert_eq!(field, "457");
}

#[test]
fn ui_a_field_stops_at_its_limit() {
    let mut field = String::new();
    orewar::hosting::type_into(&mut field, "123456789", Field::Port.limit());
    assert_eq!(field, "12345");
}

#[test]
fn a_seed_field_holds_any_seed() {
    assert!(Field::Seed.limit() >= u64::MAX.to_string().len());
}

#[test]
fn ui_tab_walks_between_the_two_fields() {
    assert_eq!(Field::Port.other(), Field::Seed);
    assert_eq!(Field::Seed.other(), Field::Port);
}

#[test]
fn the_host_form_is_checked_when_it_is_sent() {
    let mut form = SetupForm::new();
    assert_eq!(form.value_text(Field::Port), "45701|");
    assert_eq!(form.value_text(Field::Seed), "random");
    assert_eq!(form.submit(99), Some((45701, 99)), "an empty seed is a fresh map");
    form.port = String::new();
    assert_eq!(form.value_text(Field::Port), "45701|");
    form.press(orewar::hosting::Key::Walk);
    form.press(orewar::hosting::Key::Typed("1x2".to_string()));
    assert!(form.press(orewar::hosting::Key::Enter));
    assert_eq!(form.submit(99), Some((45701, 12)));
    form.port = "0".to_string();
    assert_eq!(form.submit(99), None);
    assert_eq!((form.status.as_str(), form.trouble), ("0 is not a port number", true));
    form.port = "70000".to_string();
    assert_eq!(form.submit(99), None);
    assert_eq!(form.status, "70000 is not a port number");
    form.port = "80".to_string();
    form.seed = "99999999999999999999".to_string();
    assert_eq!(form.submit(99), None);
    assert_eq!(form.status, "99999999999999999999 is too large for a seed");
    form.hosting();
    assert_eq!((form.status.as_str(), form.trouble), ("", false));
    form.failed("busy".to_string());
    assert_eq!((form.status.as_str(), form.trouble), ("busy", true));
    form.stopped();
    assert_eq!((form.status.as_str(), form.trouble), ("The match was stopped", false));
}

#[test]
fn the_host_window_shows_the_match() {
    let mut live = Live::new();
    assert_eq!(summary_text(None, &live), "");
    assert_eq!(summary_text(Some(7), &live), "seed 7  |  starting");
    let p = |id: u8, connected: bool, rtt_ms: Option<u32>| PlayerStatus {
        id,
        name: format!("P{id}"),
        ore_mined: 5,
        captures: 2,
        connected,
        rtt_ms,
    };
    let status = Status {
        seed: 8,
        tick: 90,
        state: GameStatus::Running,
        players: vec![p(0, true, Some(12)), p(1, true, None), p(3, false, None)],
    };
    let lines: Vec<String> = (0..15).map(|k| format!("line {k}")).collect();
    live.take(Some(status), lines);
    live.take(None, Vec::new());
    assert_eq!(
        summary_text(Some(7), &live),
        "in play  |  tick 90\nseed 8  |  30 Hz  |  up to 4 players"
    );
    assert_eq!(player_text(&live, 0), "P0 #0   ore 5   captures 2   12 ms");
    assert_eq!(player_text(&live, 1), "P1 #1   ore 5   captures 2   connected");
    assert_eq!(player_text(&live, 2), "P3 #3   ore 5   captures 2   offline");
    assert_eq!(player_text(&live, 3), "--");
    assert_eq!(live.log.len(), LOG_SHOWN);
    assert!(live.log_text().starts_with("line 5\n") && live.log_text().ends_with("\nline 14"));
    assert_eq!(describe(GameStatus::Waiting), "waiting for a second player");
    assert_eq!(describe(GameStatus::Finished), "finished");
    assert_eq!(after_pump(true, true), AfterPump::Stop);
    assert_eq!(after_pump(false, true), AfterPump::NewMatch);
    assert_eq!(after_pump(false, false), AfterPump::Sleep);
}
