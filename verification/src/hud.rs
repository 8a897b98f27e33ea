//! What the player panel says.

use vstd::prelude::*;
use vstd::string::*;

use crate::link::{Link, Session};
use crate::measure::{gathered, listed_if, Real, Vec2};
use crate::protocol::{Fleet, GameStatus, PowerUp, VehicleSlot, MAX_PLAYERS, POWERUPS};
use crate::rules::Prices;
use crate::state::{log_text, name_for, GameState, RenderPlayer, RenderVehicle};
use crate::text::{
    decimal, digits, padded, push_decimal, push_padded, uppercase, uppercase_text,
};
use crate::wording::Wording;

verus! {

/// What the status panel shows as whole numbers.
#[derive(Clone, Copy, Debug, PartialEq, Eq, Structural)]
pub struct Figures {
    pub rtt_ms: u32,
    pub loss_percent: u32,
    /// What the sortie in the air has left, and how fast it is going.
    pub fuel_seconds: u32,
    pub airspeed: u32,
}

/// One vehicle's gauges, as whole numbers.
#[derive(Clone, Copy, Debug, PartialEq, Eq, Structural)]
pub struct Gauges {
    pub shield: u32,
    pub max_shield: u32,
    pub hull: u32,
    pub max_hull: u32,
    pub cargo: u32,
    pub max_cargo: u32,
    pub capture_percent: u32,
}

pub open spec fn link_words(link: Link, server: Seq<char>, f: Figures, wording: &Wording) -> Seq<char> {
    match link {
        Link::Connecting => "connecting to "@ + server,
        Link::Connected => digits(f.rtt_ms as nat) + " ms  |  "@ + digits(f.loss_percent as nat)
            + "% loss"@,
        Link::Denied(reason) => "refused: "@ + wording.deny_spec(reason),
    }
}

fn link_line(link: Link, server: &str, f: Figures, wording: &Wording) -> (r: String)
    ensures
        link == Link::Connecting ==> server@.is_suffix_of(r@),
        link == Link::Connected ==> digits(f.rtt_ms as nat).is_prefix_of(r@) && (digits(
            f.loss_percent as nat,
        ) + "% loss"@).is_suffix_of(r@),
        link is Denied ==> wording.deny_spec(link->Denied_0).is_suffix_of(r@),
        r@ == link_words(link, server@, f, wording),
{
    match link {
        Link::Connecting => {
            let mut out = "connecting to ".to_owned();
            out.append(server);
            out
        },
        Link::Connected => {
            let mut out = decimal(f.rtt_ms as u64);
            out.append(" ms  |  ");
            push_decimal(&mut out, f.loss_percent as u64);
            out.append("% loss");
            out
        },
        Link::Denied(reason) => {
            let mut out = "refused: ".to_owned();
            out.append(wording.deny(reason));
            out
        },
    }
}

/// The sortie line is only worth the room once the aircraft is bought. Airspeed
/// stands alongside the fuel: without a number on it the player cannot tell the
/// throttle is doing anything.
pub open spec fn sortie_words(me: Option<RenderPlayer>, cheats: bool, f: Figures) -> Seq<char> {
    match me {
        Some(p) if PowerUp::Bomber.held_spec(p.powerups) => if p.plane is Some {
            "\nsortie: "@ + (if cheats {
                "fuel unlimited"@
            } else {
                digits(f.fuel_seconds as nat) + "s of fuel"@
            }) + "   "@ + digits(f.airspeed as nat) + " kts"@
        } else if p.plane_ready_in > 0 {
            "\nsortie: ready in "@ + digits(p.plane_ready_in as nat) + "s"@
        } else {
            "\nsortie: ready  [G]"@
        },
        _ => Seq::empty(),
    }
}

fn fuel_line(cheats: bool, f: Figures) -> (r: String)
    ensures
        r@ == if cheats {
            "fuel unlimited"@
        } else {
            digits(f.fuel_seconds as nat) + "s of fuel"@
        },
{
    if cheats {
        "fuel unlimited".to_owned()
    } else {
        let mut out = decimal(f.fuel_seconds as u64);
        out.append("s of fuel");
        out
    }
}

fn sortie_line(me: Option<&RenderPlayer>, cheats: bool, f: Figures) -> (r: String)
    ensures
        r@ == sortie_words(seen(me), cheats, f),
{
    match me {
        Some(p) => {
            if !PowerUp::Bomber.held(p.powerups) {
                String::new()
            } else if p.plane.is_some() {
                let mut out = "\nsortie: ".to_owned();
                let fuel = fuel_line(cheats, f);
                out.append(fuel.as_str());
                out.append("   ");
                push_decimal(&mut out, f.airspeed as u64);
                out.append(" kts");
                out
            } else if p.plane_ready_in > 0 {
                let mut out = "\nsortie: ready in ".to_owned();
                push_decimal(&mut out, p.plane_ready_in as u64);
                out.append("s");
                out
            } else {
                "\nsortie: ready  [G]".to_owned()
            }
        },
        None => String::new(),
    }
}

/// The player behind a reference.
pub open spec fn seen(me: Option<&RenderPlayer>) -> Option<RenderPlayer> {
    match me {
        Some(p) => Some(*p),
        None => None,
    }
}

pub open spec fn vehicle_word(slot: VehicleSlot) -> Seq<char> {
    match slot {
        VehicleSlot::Tank => "TANK"@,
        VehicleSlot::Miner => "MINER"@,
        VehicleSlot::Plane => "BOMBER"@,
    }
}

pub open spec fn weapons_words(slot: VehicleSlot) -> Seq<char> {
    if slot == VehicleSlot::Plane {
        "WASD fly | LMB drop bombs"@
    } else {
        "WASD drive | mouse aim | LMB gun | RMB missile"@
    }
}

pub open spec fn cheat_words(cheats: bool) -> Seq<char> {
    if cheats {
        "\nCHEATS ON  [Alt-C]"@
    } else {
        Seq::empty()
    }
}

/// The local player's name, if there is a local player yet.
pub open spec fn own_name(state: &GameState, colors: Seq<String>) -> Seq<char> {
    match state.local_player {
        Some(id) => name_for(state.roster@, colors, id),
        None => Seq::empty(),
    }
}

/// The ore a player holds, and the ore they have mined.
pub open spec fn ore_figures(me: Option<RenderPlayer>) -> (u32, u32) {
    match me {
        Some(p) => (p.credits, p.ore_mined),
        None => (0, 0),
    }
}

pub open spec fn status_words(
    state: &GameState,
    link: Link,
    server: Seq<char>,
    driving: VehicleSlot,
    f: Figures,
    colors: Seq<String>,
    wording: &Wording,
) -> Seq<char> {
    let me = state.local_spec();
    "OREWAR  "@ + own_name(state, colors) + "\n"@ + link_words(link, server, f, wording)
        + "\nore "@ + digits(ore_figures(me).0 as nat) + "   mined "@ + digits(
        ore_figures(me).1 as nat,
    ) + "\ndriving: "@ + vehicle_word(driving) + sortie_words(me, state.cheats, f) + cheat_words(
        state.cheats,
    ) + "\n\n"@ + weapons_words(driving)
        + "\nTAB swap vehicle | B build | O overview | ESC menu"@
}

/// The status panel.
pub fn status_text(
    state: &GameState,
    session: &Session,
    server: &str,
    driving: VehicleSlot,
    f: Figures,
    colors: &Vec<String>,
    wording: &Wording,
) -> (r: String)
    requires
        colors@.len() == MAX_PLAYERS,
    ensures
        state.local_spec() is Some ==> ("OREWAR  "@ + own_name(state, colors@) + "\n"@ + link_words(
            session.link,
            server@,
            f,
            wording,
        ) + "\nore "@ + digits(state.local_spec()->0.credits as nat) + "   mined "@ + digits(
            state.local_spec()->0.ore_mined as nat,
        ) + "\ndriving: "@ + match driving {
            VehicleSlot::Tank => "TANK"@,
            VehicleSlot::Miner => "MINER"@,
            VehicleSlot::Plane => "BOMBER"@,
        }).is_prefix_of(r@),
        "\nTAB swap vehicle | B build | O overview | ESC menu"@.is_suffix_of(r@),
        r@ == status_words(state, session.link, server@, driving, f, colors@, wording),
{
    let me = state.local();
    let name = match state.local_player {
        Some(id) => state.name_of(id, colors),
        None => String::new(),
    };
    let (credits, mined): (u32, u32) = match me {
        Some(p) => (p.credits, p.ore_mined),
        None => (0, 0),
    };
    let link = link_line(session.link, server, f, wording);
    let sortie = sortie_line(me, state.cheats, f);
    let mut out = "OREWAR  ".to_owned();
    out.append(name.as_str());
    out.append("\n");
    out.append(link.as_str());
    out.append("\nore ");
    push_decimal(&mut out, credits as u64);
    out.append("   mined ");
    push_decimal(&mut out, mined as u64);
    out.append("\ndriving: ");
    match driving {
        VehicleSlot::Tank => {
            out.append("TANK");
        },
        VehicleSlot::Miner => {
            out.append("MINER");
        },
        VehicleSlot::Plane => {
            out.append("BOMBER");
        },
    }
    out.append(sortie.as_str());
    let cheat_line = if state.cheats {
        "\nCHEATS ON  [Alt-C]".to_owned()
    } else {
        String::new()
    };
    out.append(cheat_line.as_str());
    out.append("\n\n");
    if driving == VehicleSlot::Plane {
        out.append("WASD fly | LMB drop bombs");
    } else {
        out.append("WASD drive | mouse aim | LMB gun | RMB missile");
    }
    out.append("\nTAB swap vehicle | B build | O overview | ESC menu");
    out
}

/// Shield and hull, each against what it holds.
pub open spec fn armour_words(g: Gauges) -> Seq<char> {
    "shield "@ + digits(g.shield as nat) + "/"@ + digits(g.max_shield as nat) + "   hull "@
        + digits(g.hull as nat) + "/"@ + digits(g.max_hull as nat)
}

fn armour_line(g: Gauges) -> (r: String)
    ensures
        ("shield "@ + digits(g.shield as nat) + "/"@ + digits(g.max_shield as nat)).is_prefix_of(r@),
        ("hull "@ + digits(g.hull as nat) + "/"@ + digits(g.max_hull as nat)).is_suffix_of(r@),
        r@ == armour_words(g),
{
    let mut out = "shield ".to_owned();
    push_decimal(&mut out, g.shield as u64);
    out.append("/");
    push_decimal(&mut out, g.max_shield as u64);
    out.append("   hull ");
    push_decimal(&mut out, g.hull as u64);
    out.append("/");
    push_decimal(&mut out, g.max_hull as u64);
    proof {
        reveal_strlit("   hull ");
        reveal_strlit("hull ");
        let end = "hull "@ + digits(g.hull as nat) + "/"@ + digits(g.max_hull as nat);
        assert("   hull "@.skip(3) =~= "hull "@);
        let from = out@.len() - end.len();
        assert(out@.skip(from) =~= end);
    }
    out
}

/// The tank's panel.
pub fn tank_text(me: Option<&RenderPlayer>, g: Gauges) -> (r: String)
    ensures
        me is None || me->0.tank is None ==> r@ == "destroyed -- respawning"@,
        me is Some && me->0.tank is Some ==> armour_words(g).is_prefix_of(r@) && digits(
            me->0.missiles as nat,
        ).is_suffix_of(r@),
        r@ == match me {
            Some(p) if p.tank is Some => armour_words(g) + "\nmissiles "@ + digits(
                p.missiles as nat,
            ),
            _ => "destroyed -- respawning"@,
        },
{
    match me {
        Some(p) => {
            if p.tank.is_some() {
                let mut out = armour_line(g);
                out.append("\nmissiles ");
                push_decimal(&mut out, p.missiles as u64);
                return out;
            }
        },
        None => {},
    }
    "destroyed -- respawning".to_owned()
}

pub open spec fn cargo_words(g: Gauges) -> Seq<char> {
    "\ncargo "@ + digits(g.cargo as nat) + "/"@ + digits(g.max_cargo as nat)
}

pub open spec fn wreck_words(disabled: bool, g: Gauges) -> Seq<char> {
    if disabled {
        "\nDISABLED -- capture "@ + digits(g.capture_percent as nat) + "%"@
    } else {
        Seq::empty()
    }
}

/// The miner's panel.
pub fn miner_text(me: Option<&RenderPlayer>, g: Gauges) -> (r: String)
    ensures
        me is None || me->0.miner is None ==> r@ == "captured"@,
        me is Some && me->0.miner is Some ==> (armour_words(g) + "\ncargo "@ + digits(g.cargo as nat)
            + "/"@ + digits(g.max_cargo as nat)).is_prefix_of(r@),
        me is Some && me->0.miner is Some && me->0.miner->0.disabled ==> (digits(
            g.capture_percent as nat,
        ) + "%"@).is_suffix_of(r@),
        me is Some && me->0.miner is Some && !me->0.miner->0.disabled ==> digits(
            g.max_cargo as nat,
        ).is_suffix_of(r@),
        r@ == match me {
            Some(p) if p.miner is Some => armour_words(g) + cargo_words(g) + wreck_words(
                p.miner->0.disabled,
                g,
            ),
            _ => "captured"@,
        },
{
    match me {
        Some(p) => {
            if let Some(m) = &p.miner {
                let mut out = armour_line(g);
                let mut cargo = "\ncargo ".to_owned();
                push_decimal(&mut cargo, g.cargo as u64);
                cargo.append("/");
                push_decimal(&mut cargo, g.max_cargo as u64);
                out.append(cargo.as_str());
                let wreck = if m.disabled {
                    let mut w = "\nDISABLED -- capture ".to_owned();
                    push_decimal(&mut w, g.capture_percent as u64);
                    w.append("%");
                    w
                } else {
                    String::new()
                };
                out.append(wreck.as_str());
                return out;
            }
        },
        None => {},
    }
    "captured".to_owned()
}

/// The aircraft's panel, up whenever a sortie is: an aircraft can be shot down
/// whether or not you are watching it.
pub fn plane_text(me: Option<&RenderPlayer>, g: Gauges) -> (r: Option<String>)
    ensures
        match r {
            Some(text) => me is Some && me->0.plane is Some && text@ == armour_words(g),
            None => me is None || me->0.plane is None,
        },
{
    match me {
        Some(p) => {
            if p.plane.is_some() {
                Some(armour_line(g))
            } else {
                None
            }
        },
        None => None,
    }
}

/// The first letter of each upgrade a player holds, in the order of the list.
pub open spec fn tag_letters(wording: &Wording, held: u16, n: nat) -> Seq<char> {
    gathered(
        n,
        |i: int|
            listed_if(
                upgrade_at(i).held_spec(held),
                if wording.upgrades@[i].name@.len() > 0 {
                    wording.upgrades@[i].name@[0]
                } else {
                    '?'
                },
            ),
    )
}

/// The upgrade at a place in the list.
pub open spec fn upgrade_at(i: int) -> PowerUp {
    choose|p: PowerUp| p.index_spec() == i
}

proof fn lemma_upgrade_at(p: PowerUp)
    ensures
        upgrade_at(p.index_spec()) == p,
{
    let q = upgrade_at(p.index_spec());
    assert(q.index_spec() == p.index_spec());
}

fn tags(wording: &Wording, held: u16) -> (r: String)
    requires
        wording.wf(),
    ensures
        r@ == tag_letters(wording, held, POWERUPS as nat),
{
    let mut out = String::new();
    let mut i: usize = 0;
    while i < POWERUPS
        invariant
            i <= POWERUPS,
            wording.wf(),
            out@ =~= tag_letters(wording, held, i as nat),
        decreases POWERUPS - i,
    {
        if let Some(powerup) = PowerUp::listed(i) {
            proof {
                lemma_upgrade_at(powerup);
            }
            if powerup.held(held) {
                let name = wording.upgrades[i].name.as_str();
                if name.unicode_len() > 0 {
                    out.push(name.get_char(0));
                } else {
                    out.push('?');
                }
            }
        }
        i = i + 1;
    }
    out
}

pub open spec fn tag_words(letters: Seq<char>) -> Seq<char> {
    if letters.len() == 0 {
        Seq::empty()
    } else {
        "  ["@ + letters + "]"@
    }
}

pub open spec fn offline_words(connected: bool) -> Seq<char> {
    if connected {
        Seq::empty()
    } else {
        " (offline)"@
    }
}

pub open spec fn out_words(eliminated: bool) -> Seq<char> {
    if eliminated {
        "  OUT"@
    } else {
        Seq::empty()
    }
}

pub open spec fn roster_words(name: Seq<char>, p: RenderPlayer, wording: &Wording) -> Seq<char> {
    name + offline_words(p.connected) + "  ore "@ + digits(p.ore_mined as nat) + "  caps "@
        + digits(p.captures as nat) + tag_words(
        tag_letters(wording, p.powerups, POWERUPS as nat),
    ) + out_words(p.eliminated)
}

fn text_if(shown: bool, text: &str) -> (r: String)
    ensures
        r@ == if shown {
            text@
        } else {
            Seq::empty()
        },
{
    if shown {
        text.to_owned()
    } else {
        String::new()
    }
}

/// One row of the roster.
pub fn roster_text(state: &GameState, id: u8, colors: &Vec<String>, wording: &Wording) -> (r: String)
    requires
        colors@.len() == MAX_PLAYERS,
        wording.wf(),
    ensures
        r@ == if (id as int) < state.render.players@.len() && state.render.players@[id as int] is Some {
            roster_words(
                name_for(state.roster@, colors@, id),
                state.render.players@[id as int]->0,
                wording,
            )
        } else {
            "--"@
        },
{
    if (id as usize) < state.render.players.len() {
        if let Some(p) = &state.render.players[id as usize] {
            let mut out = state.name_of(id, colors);
            let offline = text_if(!p.connected, " (offline)");
            out.append(offline.as_str());
            out.append("  ore ");
            push_decimal(&mut out, p.ore_mined as u64);
            out.append("  caps ");
            push_decimal(&mut out, p.captures as u64);
            let letters = tags(wording, p.powerups);
            let tagged = if letters.as_str().unicode_len() == 0 {
                String::new()
            } else {
                let mut t = "  [".to_owned();
                t.append(letters.as_str());
                t.append("]");
                t
            };
            out.append(tagged.as_str());
            let gone = text_if(p.eliminated, "  OUT");
            out.append(gone.as_str());
            return out;
        }
    }
    "--".to_owned()
}

/// The first `n` lines, each but the first on a new one.
pub open spec fn joined_lines(lines: Seq<Seq<char>>, n: nat) -> Seq<char> {
    gathered(
        n,
        |i: int|
            if i == 0 {
                lines[i]
            } else {
                "\n"@ + lines[i]
            },
    )
}

/// The on-screen log.
pub fn log_lines(state: &GameState) -> (r: String)
    ensures
        r@ == joined_lines(log_text(state.log@), state.log@.len()),
{
    let mut out = String::new();
    let n = state.log.len();
    let mut i: usize = 0;
    while i < n
        invariant
            i <= n,
            n == state.log@.len(),
            out@ =~= joined_lines(log_text(state.log@), i as nat),
        decreases n - i,
    {
        if i > 0 {
            out.append("\n");
        }
        out.append(state.log[i].as_str());
        i = i + 1;
    }
    out
}

/// What the build list says of an upgrade's price.
pub open spec fn price_words(owned: bool, cheats: bool, cost: u32, credits: u32) -> Seq<char> {
    if owned {
        "OWNED"@
    } else if cheats {
        "free"@
    } else if credits >= cost {
        digits(cost as nat) + " ore"@
    } else {
        digits(cost as nat) + " ore (short "@ + digits((cost - credits) as nat) + ")"@
    }
}

fn price_line(owned: bool, cheats: bool, cost: u32, credits: u32) -> (r: String)
    ensures
        owned ==> r@ == "OWNED"@,
        !owned && cheats ==> r@ == "free"@,
        !owned && !cheats ==> digits(cost as nat).is_prefix_of(r@),
        !owned && !cheats && credits >= cost ==> r@ == digits(cost as nat) + " ore"@,
        !owned && !cheats && credits < cost ==> exists|short: nat|
            credits + short == cost && r@ == digits(cost as nat) + " ore (short "@ + #[trigger] digits(
                short,
            ) + ")"@,
        r@ == price_words(owned, cheats, cost, credits),
{
    if owned {
        "OWNED".to_owned()
    } else if cheats {
        "free".to_owned()
    } else if credits >= cost {
        let mut out = decimal(cost as u64);
        out.append(" ore");
        out
    } else {
        let mut out = decimal(cost as u64);
        out.append(" ore (short ");
        push_decimal(&mut out, (cost - credits) as u64);
        out.append(")");
        out
    }
}

/// One line of the build list.
pub open spec fn build_words(
    i: int,
    held: u16,
    credits: u32,
    cheats: bool,
    prices: Prices,
    wording: &Wording,
) -> Seq<char> {
    let powerup = upgrade_at(i);
    digits((i + 1) as nat) + ". "@ + padded(wording.upgrades@[i].name@, 17) + " "@ + padded(
        price_words(powerup.held_spec(held), cheats, prices.cost_spec(powerup), credits),
        22,
    ) + " "@ + wording.upgrades@[i].description@
}

fn build_line(
    powerup: PowerUp,
    held: u16,
    credits: u32,
    cheats: bool,
    prices: &Prices,
    wording: &Wording,
) -> (r: String)
    requires
        wording.wf(),
    ensures
        r@ == build_words(powerup.index_spec(), held, credits, cheats, *prices, wording),
{
    proof {
        lemma_upgrade_at(powerup);
    }
    let i = powerup.index();
    let mut out = decimal(i as u64 + 1);
    out.append(". ");
    push_padded(&mut out, wording.upgrades[i].name.as_str(), 17);
    out.append(" ");
    let price = price_line(powerup.held(held), cheats, prices.cost(powerup), credits);
    push_padded(&mut out, price.as_str(), 22);
    out.append(" ");
    out.append(wording.upgrades[i].description.as_str());
    out
}

/// The whole build list, as lines.
pub open spec fn build_list(
    me: Option<RenderPlayer>,
    cheats: bool,
    prices: Prices,
    wording: &Wording,
) -> Seq<Seq<char>> {
    let held = match me {
        Some(p) => p.powerups,
        None => 0,
    };
    let credits = ore_figures(me).0;
    Seq::new(
        POWERUPS as nat,
        |i: int| build_words(i, held, credits, cheats, prices, wording),
    )
}

/// The build menu.
pub fn build_text(
    me: Option<&RenderPlayer>,
    cheats: bool,
    prices: &Prices,
    wording: &Wording,
) -> (r: String)
    requires
        wording.wf(),
    ensures
        r@ == joined_lines(build_list(seen(me), cheats, *prices, wording), POWERUPS as nat),
{
    let held: u16 = match me {
        Some(p) => p.powerups,
        None => 0,
    };
    let credits: u32 = match me {
        Some(p) => p.credits,
        None => 0,
    };
    let ghost list = build_list(seen(me), cheats, *prices, wording);
    let mut out = String::new();
    let mut i: usize = 0;
    while i < POWERUPS
        invariant
            i <= POWERUPS,
            wording.wf(),
            list == build_list(seen(me), cheats, *prices, wording),
            held == match me {
                Some(p) => p.powerups,
                None => 0,
            },
            credits == ore_figures(seen(me)).0,
            out@ =~= joined_lines(list, i as nat),
        decreases POWERUPS - i,
    {
        if let Some(powerup) = PowerUp::listed(i) {
            let line = build_line(powerup, held, credits, cheats, prices, wording);
            assert(list[i as int] == line@);
            if i > 0 {
                out.append("\n");
            }
            out.append(line.as_str());
        }
        i = i + 1;
    }
    out
}

/// What stands across the middle of the screen. Losing a miner is the one thing
/// that takes you off the field entirely, so while that clock runs it is the
/// only thing worth saying.
pub open spec fn banner_words(state: &GameState, colors: Seq<String>) -> Seq<char> {
    let coming_back = match state.local_spec() {
        Some(p) => p.respawn_in,
        None => 0,
    };
    match state.status {
        GameStatus::Waiting => "WAITING FOR ANOTHER PLAYER"@,
        GameStatus::Running => if coming_back > 0 {
            "MINER LOST\nBACK IN "@ + digits(coming_back as nat)
        } else {
            Seq::empty()
        },
        GameStatus::Finished => match state.winner {
            Some(winner) => if state.local_player == Some(winner) {
                "YOU WIN"@
            } else {
                uppercase_text(name_for(state.roster@, colors, winner)) + " WINS"@
            },
            None => Seq::empty(),
        },
    }
}

/// What stands across the middle of the screen.
pub fn banner_text(state: &GameState, colors: &Vec<String>) -> (r: String)
    requires
        colors@.len() == MAX_PLAYERS,
    ensures
        state.status == GameStatus::Running && (state.local_spec() is None || state.local_spec()->0.respawn_in
            == 0) ==> r@.len() == 0,
        state.status == GameStatus::Running && state.local_spec() is Some && state.local_spec()->0.respawn_in
            > 0 ==> digits(state.local_spec()->0.respawn_in as nat).is_suffix_of(r@),
        state.status == GameStatus::Finished && state.winner is None ==> r@.len() == 0,
        state.status == GameStatus::Finished && state.winner is Some && state.local_player
            != state.winner ==> uppercase_text(
            name_for(state.roster@, colors@, state.winner->0),
        ).is_prefix_of(r@),
        state.status == GameStatus::Finished && state.winner is Some && state.local_player
            == state.winner ==> r@ == "YOU WIN"@,
        r@ == banner_words(state, colors@),
{
    match state.status {
        GameStatus::Waiting => "WAITING FOR ANOTHER PLAYER".to_owned(),
        GameStatus::Running => {
            let coming_back: u8 = match state.local() {
                Some(p) => p.respawn_in,
                None => 0,
            };
            if coming_back > 0 {
                let mut out = "MINER LOST\nBACK IN ".to_owned();
                push_decimal(&mut out, coming_back as u64);
                out
            } else {
                String::new()
            }
        },
        GameStatus::Finished => match state.winner {
            Some(winner) => {
                let mine = match state.local_player {
                    Some(me) => me == winner,
                    None => false,
                };
                if mine {
                    "YOU WIN".to_owned()
                } else {
                    let name = state.name_of(winner, colors);
                    let mut out = uppercase(name.as_str());
                    out.append(" WINS");
                    out
                }
            },
            None => String::new(),
        },
    }
}

/// Panels shown and hidden as a whole.
#[derive(Clone, Copy, Debug, PartialEq, Eq, Structural)]
pub struct Panels {
    pub build_menu: bool,
    pub radar: bool,
    pub banner: bool,
    pub plane: bool,
}

/// Which panels are shown.
pub fn panels(state: &GameState, build_menu: bool) -> (r: Panels)
    ensures
        r.build_menu == build_menu,
        r.radar == (state.local_spec() is Some && PowerUp::Radar.held_spec(
            state.local_spec()->0.powerups,
        )),
        r.banner == (state.status != GameStatus::Running || (state.local_spec() is Some
            && state.local_spec()->0.respawn_in > 0)),
        r.plane == (state.local_spec() is Some && state.local_spec()->0.plane is Some),
{
    match state.local() {
        Some(p) => Panels {
            build_menu,
            radar: PowerUp::Radar.held(p.powerups),
            banner: state.status != GameStatus::Running || p.respawn_in > 0,
            plane: p.plane.is_some(),
        },
        None => Panels {
            build_menu,
            radar: false,
            banner: state.status != GameStatus::Running,
            plane: false,
        },
    }
}

/// Bar fills.
#[derive(Clone, Copy, Debug, PartialEq, Eq, Structural)]
pub enum HudBar {
    TankShield,
    TankHull,
    MinerShield,
    MinerHull,
    MinerCargo,
    Capture,
    PlaneShield,
    PlaneHull,
}

/// What a bar measures, if there is anything to measure. A miner that works is
/// not being captured.
pub open spec fn bar_spec(bar: HudBar, me: Option<RenderPlayer>) -> Option<Real> {
    match me {
        None => None,
        Some(p) => match bar {
            HudBar::TankShield => reading(p.tank, |v: RenderVehicle| v.shield),
            HudBar::TankHull => reading(p.tank, |v: RenderVehicle| v.hull),
            HudBar::MinerShield => reading(p.miner, |v: RenderVehicle| v.shield),
            HudBar::MinerHull => reading(p.miner, |v: RenderVehicle| v.hull),
            HudBar::MinerCargo => reading(p.miner, |v: RenderVehicle| v.cargo),
            HudBar::Capture => reading(
                p.miner,
                |v: RenderVehicle|
                    if v.disabled {
                        v.capture_progress
                    } else {
                        0
                    },
            ),
            HudBar::PlaneShield => reading(p.plane, |v: RenderVehicle| v.shield),
            HudBar::PlaneHull => reading(p.plane, |v: RenderVehicle| v.hull),
        },
    }
}

pub open spec fn reading(v: Option<RenderVehicle>, f: spec_fn(RenderVehicle) -> Real) -> Option<Real> {
    match v {
        Some(v) => Some(f(v)),
        None => None,
    }
}

/// What a bar measures, if there is anything to measure.
pub fn bar_value(bar: HudBar, me: Option<&RenderPlayer>) -> (r: Option<Real>)
    ensures
        me is None ==> r is None,
        me is Some && me->0.tank is Some ==> (bar == HudBar::TankShield ==> r == Some(
            me->0.tank->0.shield,
        )) && (bar == HudBar::TankHull ==> r == Some(me->0.tank->0.hull)),
        me is Some && me->0.miner is Some ==> (bar == HudBar::MinerShield ==> r == Some(
            me->0.miner->0.shield,
        )) && (bar == HudBar::MinerHull ==> r == Some(me->0.miner->0.hull)) && (bar
            == HudBar::MinerCargo ==> r == Some(me->0.miner->0.cargo)) && (bar == HudBar::Capture
            && me->0.miner->0.disabled ==> r == Some(me->0.miner->0.capture_progress)) && (bar
            == HudBar::Capture && !me->0.miner->0.disabled ==> r == Some(0 as Real)),
        me is Some && me->0.plane is Some ==> (bar == HudBar::PlaneShield ==> r == Some(
            me->0.plane->0.shield,
        )) && (bar == HudBar::PlaneHull ==> r == Some(me->0.plane->0.hull)),
        me is Some && me->0.tank is None && (bar == HudBar::TankShield || bar == HudBar::TankHull)
            ==> r is None,
        me is Some && me->0.plane is None && (bar == HudBar::PlaneShield || bar == HudBar::PlaneHull)
            ==> r is None,
        r == bar_spec(bar, seen(me)),
{
    let p = match me {
        Some(p) => p,
        None => {
            return None;
        },
    };
    let v: Option<RenderVehicle> = match bar {
        HudBar::TankShield => p.tank,
        HudBar::TankHull => p.tank,
        HudBar::PlaneShield => p.plane,
        HudBar::PlaneHull => p.plane,
        _ => p.miner,
    };
    match v {
        None => None,
        Some(v) => match bar {
            HudBar::TankShield => Some(v.shield),
            HudBar::MinerShield => Some(v.shield),
            HudBar::PlaneShield => Some(v.shield),
            HudBar::TankHull => Some(v.hull),
            HudBar::MinerHull => Some(v.hull),
            HudBar::PlaneHull => Some(v.hull),
            HudBar::MinerCargo => Some(v.cargo),
            HudBar::Capture => {
                if v.disabled {
                    Some(v.capture_progress)
                } else {
                    Some(0)
                }
            },
        },
    }
}

/// Something on the radar.
#[derive(Clone, Copy, Debug, PartialEq, Eq, Structural)]
pub struct Contact {
    pub pos: Vec2,
    pub player: u8,
    pub is_me: bool,
}

/// One player's contacts: tank and miner.
pub open spec fn contacts_of(p: RenderPlayer, local: Option<u8>) -> Seq<Contact> {
    let is_me = local == Some(p.id);
    listed_if(p.tank is Some, Contact { pos: p.tank->0.pos, player: p.id, is_me }) + listed_if(
        p.miner is Some,
        Contact { pos: p.miner->0.pos, player: p.id, is_me },
    )
}

/// Every vehicle on the ground, in slot order.
pub open spec fn all_contacts(
    players: Seq<Option<RenderPlayer>>,
    local: Option<u8>,
    n: nat,
) -> Seq<Contact> {
    gathered(
        n,
        |i: int|
            match players[i] {
                Some(p) => contacts_of(p, local),
                None => Seq::empty(),
            },
    )
}

/// Flattens every vehicle on the ground into a list of contacts.
pub fn contacts(state: &GameState) -> (r: Vec<Contact>)
    ensures
        forall|i: int|
            0 <= i < state.render.players@.len() && (#[trigger] state.render.players@[i]) is Some ==> {
                let p = state.render.players@[i]->0;
                let is_me = state.local_player == Some(p.id);
                &&& p.tank is Some ==> r@.contains(
                    Contact { pos: p.tank->0.pos, player: p.id, is_me },
                )
                &&& p.miner is Some ==> r@.contains(
                    Contact { pos: p.miner->0.pos, player: p.id, is_me },
                )
            },
        r@ == all_contacts(
            state.render.players@,
            state.local_player,
            state.render.players@.len(),
        ),
{
    let mut out: Vec<Contact> = Vec::new();
    let mut i: usize = 0;
    while i < state.render.players.len()
        invariant
            i <= state.render.players@.len(),
            out@ == all_contacts(state.render.players@, state.local_player, i as nat),
        decreases state.render.players.len() - i,
    {
        let ghost before = out@;
        if let Some(p) = &state.render.players[i] {
            let is_me = match state.local_player {
                Some(id) => id == p.id,
                None => false,
            };
            if let Some(v) = &p.tank {
                out.push(Contact { pos: v.pos, player: p.id, is_me });
            }
            if let Some(v) = &p.miner {
                out.push(Contact { pos: v.pos, player: p.id, is_me });
            }
            assert(out@ =~= before + contacts_of(*p, state.local_player));
        }
        i = i + 1;
    }
    proof {
        let players = state.render.players@;
        assert forall|i: int| 0 <= i < players.len() && (#[trigger] players[i]) is Some implies {
            let p = players[i]->0;
            let is_me = state.local_player == Some(p.id);
            &&& p.tank is Some ==> out@.contains(
                Contact { pos: p.tank->0.pos, player: p.id, is_me },
            )
            &&& p.miner is Some ==> out@.contains(
                Contact { pos: p.miner->0.pos, player: p.id, is_me },
            )
        } by {
            lemma_everything_on_the_ground_is_a_contact(players, state.local_player, i);
        }
    }
    out
}

/// Where the radar is seen from and which way is up on it: the vehicle being
/// driven, or the next there is. Nowhere without the upgrade.
pub open spec fn radar_spec(me: Option<RenderPlayer>, driving: VehicleSlot) -> Option<(Vec2, Real)> {
    match me {
        Some(p) if PowerUp::Radar.held_spec(p.powerups) => {
            let fleet = crate::controls::fleet_of(p);
            match p.vehicle_spec(driving.or_next_spec(fleet)) {
                Some(v) => Some((v.pos, v.yaw)),
                None => None,
            }
        },
        _ => None,
    }
}

/// Where the radar is seen from and which way is up on it.
pub fn radar_view(me: Option<&RenderPlayer>, driving: VehicleSlot) -> (r: Option<(Vec2, Real)>)
    ensures
        me is None || !PowerUp::Radar.held_spec(me->0.powerups) ==> r is None,
        me is Some && PowerUp::Radar.held_spec(me->0.powerups) ==> {
            &&& r is Some <==> me->0.tank is Some || me->0.miner is Some || me->0.plane is Some
            &&& driving == VehicleSlot::Tank && me->0.tank is Some ==> r == Some(
                (me->0.tank->0.pos, me->0.tank->0.yaw),
            )
            &&& driving == VehicleSlot::Miner && me->0.miner is Some ==> r == Some(
                (me->0.miner->0.pos, me->0.miner->0.yaw),
            )
            &&& driving == VehicleSlot::Plane && me->0.plane is Some ==> r == Some(
                (me->0.plane->0.pos, me->0.plane->0.yaw),
            )
        },
        r == radar_spec(seen(me), driving),
{
    match me {
        None => None,
        Some(p) => {
            if !PowerUp::Radar.held(p.powerups) {
                return None;
            }
            let fleet = Fleet {
                tank: p.tank.is_some(),
                miner: p.miner.is_some(),
                plane: p.plane.is_some(),
            };
            match p.vehicle(driving.or_next(fleet)) {
                Some(v) => Some((v.pos, v.yaw)),
                None => None,
            }
        },
    }
}

/// Everything on the ground is a contact, under whose it is, and only the
/// player's own are marked as theirs.
pub proof fn lemma_everything_on_the_ground_is_a_contact(
    players: Seq<Option<RenderPlayer>>,
    local: Option<u8>,
    i: int,
)
    requires
        0 <= i < players.len(),
        players[i] is Some,
    ensures
        ({
            let p = players[i]->0;
            let all = all_contacts(players, local, players.len());
            let is_me = local == Some(p.id);
            &&& p.tank is Some ==> all.contains(
                Contact { pos: p.tank->0.pos, player: p.id, is_me },
            )
            &&& p.miner is Some ==> all.contains(
                Contact { pos: p.miner->0.pos, player: p.id, is_me },
            )
        }),
{
    let n = players.len();
    let f = |i: int|
        match players[i] {
            Some(p) => contacts_of(p, local),
            None => Seq::empty(),
        };
    let p = players[i]->0;
    let is_me = local == Some(p.id);
    let own = f(i);
    if p.tank is Some {
        let c = Contact { pos: p.tank->0.pos, player: p.id, is_me };
        assert(own[0] == c);
        crate::measure::lemma_gathered_holds(n, f, i, c);
    }
    if p.miner is Some {
        let c = Contact { pos: p.miner->0.pos, player: p.id, is_me };
        assert(own[own.len() - 1] == c);
        crate::measure::lemma_gathered_holds(n, f, i, c);
    }
}

/// A contact is somebody's on the ground, where it is drawn: nothing in the air
/// is on the radar.
pub proof fn lemma_a_contact_is_on_the_ground(
    players: Seq<Option<RenderPlayer>>,
    local: Option<u8>,
    c: Contact,
)
    requires
        all_contacts(players, local, players.len()).contains(c),
    ensures
        c.is_me <==> local == Some(c.player),
        exists|i: int|
            #![trigger players[i]]
            0 <= i < players.len() && players[i] is Some && players[i]->0.id == c.player && ((
            players[i]->0.tank is Some && players[i]->0.tank->0.pos == c.pos) || (
            players[i]->0.miner is Some && players[i]->0.miner->0.pos == c.pos)),
{
    let n = players.len();
    let f = |i: int|
        match players[i] {
            Some(p) => contacts_of(p, local),
            None => Seq::empty(),
        };
    crate::measure::lemma_gathered_from(n, f, c);
    let i = choose|i: int| 0 <= i < n && (#[trigger] f(i)).contains(c);
    let own = f(i);
    let z = choose|z: int| 0 <= z < own.len() && own[z] == c;
    assert(own[z] == c);
    assert(players[i] is Some);
}

/// Whoever holds an upgrade has a letter for it, and whoever holds none has
/// none.
pub proof fn lemma_upgrades_are_lettered(wording: &Wording, held: u16, p: PowerUp)
    requires
        wording.wf(),
    ensures
        p.held_spec(held) && wording.upgrades@[p.index_spec()].name@.len() > 0 ==> tag_letters(
            wording,
            held,
            POWERUPS as nat,
        ).contains(wording.upgrades@[p.index_spec()].name@[0]),
{
    let f = |i: int|
        listed_if(
            upgrade_at(i).held_spec(held),
            if wording.upgrades@[i].name@.len() > 0 {
                wording.upgrades@[i].name@[0]
            } else {
                '?'
            },
        );
    lemma_upgrade_at(p);
    let i = p.index_spec();
    if p.held_spec(held) && wording.upgrades@[i].name@.len() > 0 {
        let c = wording.upgrades@[i].name@[0];
        assert(f(i)[0] == c);
        crate::measure::lemma_gathered_holds(POWERUPS as nat, f, i, c);
    }
}

/// Every line is there, each after the one before it, the last of them last.
pub proof fn lemma_lines_follow_each_other(lines: Seq<Seq<char>>, n: nat)
    requires
        0 < n <= lines.len(),
    ensures
        lines[n - 1].is_suffix_of(joined_lines(lines, n)),
        joined_lines(lines, (n - 1) as nat).is_prefix_of(joined_lines(lines, n)),
        n > 1 ==> joined_lines(lines, n).len() == joined_lines(lines, (n - 1) as nat).len()
            + lines[n - 1].len() + 1,
        n == 1 ==> joined_lines(lines, n) =~= lines[0],
{
    reveal_strlit("\n");
    let before = joined_lines(lines, (n - 1) as nat);
    let all = joined_lines(lines, n);
    let last = if n == 1 {
        lines[n - 1]
    } else {
        "\n"@ + lines[n - 1]
    };
    assert(all == before + last);
    if n == 1 {
        assert(before =~= Seq::<char>::empty());
    }
    assert(all.skip(all.len() - lines[n - 1].len()) =~= lines[n - 1]);
}

/// A row of the roster starts with who it is, and says what they mined before
/// what they took.
pub proof fn lemma_a_roster_row_is_its_players(name: Seq<char>, p: RenderPlayer, wording: &Wording)
    ensures
        (name + offline_words(p.connected) + "  ore "@ + digits(p.ore_mined as nat) + "  caps "@
            + digits(p.captures as nat)).is_prefix_of(roster_words(name, p, wording)),
        out_words(p.eliminated).is_suffix_of(roster_words(name, p, wording)),
{
}

/// What is said of a sortie is what there is of it: nothing before the aircraft
/// is bought, the fuel and the airspeed while it is up, the wait while it is not.
pub proof fn lemma_a_sortie_is_shown(p: RenderPlayer, cheats: bool, f: Figures)
    ensures
        ({
            let words = sortie_words(Some(p), cheats, f);
            let bought = PowerUp::Bomber.held_spec(p.powerups);
            &&& !bought ==> words.len() == 0
            &&& bought && p.plane is Some ==> (digits(f.airspeed as nat) + " kts"@).is_suffix_of(
                words,
            )
            &&& bought && p.plane is Some && !cheats ==> ("\nsortie: "@ + digits(
                f.fuel_seconds as nat,
            ) + "s of fuel"@).is_prefix_of(words)
            &&& bought && p.plane is Some && cheats ==> ("\nsortie: "@
                + "fuel unlimited"@).is_prefix_of(words)
            &&& bought && p.plane is None && p.plane_ready_in > 0 ==> words =~= "\nsortie: ready in "@
                + digits(p.plane_ready_in as nat) + "s"@
            &&& bought && p.plane is None && p.plane_ready_in <= 0 ==> words =~= "\nsortie: ready  [G]"@
        }),
        sortie_words(None, cheats, f).len() == 0,
{
    let words = sortie_words(Some(p), cheats, f);
    if PowerUp::Bomber.held_spec(p.powerups) && p.plane is Some {
        let tail = digits(f.airspeed as nat) + " kts"@;
        assert(words.skip(words.len() - tail.len()) =~= tail);
    }
}

} // verus!
