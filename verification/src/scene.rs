//! What is put on screen, and what is taken off it again.
//!
//! Nothing here simulates anything. Every frame it reconciles what is on screen
//! against what is to be drawn.

use vstd::prelude::*;

use crate::measure::{
    gathered, lemma_gathered_from, lemma_gathered_holds, listed_if, Real, Vec2, ONE,
};
use crate::protocol::{HitFx, HitKind, VehicleSlot, MAX_PLAYERS};
use crate::state::{GameState, RenderPlayer, RenderVehicle};

verus! {

/// A place in the drawn world, where `y` is up.
#[derive(Clone, Copy, Debug, PartialEq, Eq, Structural)]
pub struct WorldPos {
    pub x: Real,
    pub y: Real,
    pub z: Real,
}

/// The field's second axis is the drawn world's third.
pub fn sim_to_world_at(p: Vec2, y: Real) -> (r: WorldPos)
    ensures
        r == (WorldPos { x: p.x, y, z: p.y }),
{
    WorldPos { x: p.x, y, z: p.y }
}

/// A place on the ground.
pub fn sim_to_world(p: Vec2) -> (r: WorldPos)
    ensures
        r == (WorldPos { x: p.x, y: 0, z: p.y }),
{
    sim_to_world_at(p, 0)
}

/// The place on the field under a place in the drawn world.
pub fn world_to_sim(v: WorldPos) -> (r: Vec2)
    ensures
        r == (Vec2 { x: v.x, y: v.z }),
{
    Vec2 { x: v.x, y: v.z }
}

/// Which of the players' colours a player wears.
pub fn color_index(id: u8) -> (r: usize)
    ensures
        r == id as int % MAX_PLAYERS as int,
        r < MAX_PLAYERS,
{
    id as usize % MAX_PLAYERS
}

/// The number a vehicle's view goes under.
pub open spec fn view_key_spec(player: u8, slot: VehicleSlot) -> u16 {
    match slot {
        VehicleSlot::Tank => (player as int * 3) as u16,
        VehicleSlot::Miner => (player as int * 3 + 1) as u16,
        VehicleSlot::Plane => (player as int * 3 + 2) as u16,
    }
}

/// The number a vehicle's view goes under.
pub fn view_key(player: u8, slot: VehicleSlot) -> (r: u16)
    ensures
        r == player as int * 3 + match slot {
            VehicleSlot::Tank => 0int,
            VehicleSlot::Miner => 1,
            VehicleSlot::Plane => 2,
        },
        r == view_key_spec(player, slot),
{
    match slot {
        VehicleSlot::Tank => player as u16 * 3,
        VehicleSlot::Miner => player as u16 * 3 + 1,
        VehicleSlot::Plane => player as u16 * 3 + 2,
    }
}

/// A vehicle to be drawn.
#[derive(Clone, Copy, Debug, PartialEq, Eq, Structural)]
pub struct Wanted {
    pub player: u8,
    pub slot: VehicleSlot,
    pub vehicle: RenderVehicle,
}

pub open spec fn wanted_of(p: RenderPlayer) -> Seq<Wanted> {
    listed_if(
        p.tank is Some,
        Wanted { player: p.id, slot: VehicleSlot::Tank, vehicle: p.tank->0 },
    ) + listed_if(
        p.miner is Some,
        Wanted { player: p.id, slot: VehicleSlot::Miner, vehicle: p.miner->0 },
    ) + listed_if(
        p.plane is Some,
        Wanted { player: p.id, slot: VehicleSlot::Plane, vehicle: p.plane->0 },
    )
}

pub open spec fn all_wanted(players: Seq<Option<RenderPlayer>>, n: nat) -> Seq<Wanted> {
    gathered(
        n,
        |i: int|
            match players[i] {
                Some(p) => wanted_of(p),
                None => Seq::empty(),
            },
    )
}

/// Every vehicle to be drawn, in slot order.
pub fn wanted_vehicles(state: &GameState) -> (r: Vec<Wanted>)
    ensures
        forall|i: int|
            0 <= i < state.render.players@.len() && (#[trigger] state.render.players@[i]) is Some ==> {
                let p = state.render.players@[i]->0;
                &&& p.tank is Some ==> r@.contains(
                    Wanted { player: p.id, slot: VehicleSlot::Tank, vehicle: p.tank->0 },
                )
                &&& p.miner is Some ==> r@.contains(
                    Wanted { player: p.id, slot: VehicleSlot::Miner, vehicle: p.miner->0 },
                )
                &&& p.plane is Some ==> r@.contains(
                    Wanted { player: p.id, slot: VehicleSlot::Plane, vehicle: p.plane->0 },
                )
            },
        r@ == all_wanted(state.render.players@, state.render.players@.len()),
{
    let mut out: Vec<Wanted> = Vec::new();
    let mut i: usize = 0;
    while i < state.render.players.len()
        invariant
            i <= state.render.players@.len(),
            out@ == all_wanted(state.render.players@, i as nat),
        decreases state.render.players.len() - i,
    {
        let ghost before = out@;
        if let Some(p) = &state.render.players[i] {
            if let Some(v) = p.tank {
                out.push(Wanted { player: p.id, slot: VehicleSlot::Tank, vehicle: v });
            }
            if let Some(v) = p.miner {
                out.push(Wanted { player: p.id, slot: VehicleSlot::Miner, vehicle: v });
            }
            if let Some(v) = p.plane {
                out.push(Wanted { player: p.id, slot: VehicleSlot::Plane, vehicle: v });
            }
            assert(out@ =~= before + wanted_of(*p));
        }
        i = i + 1;
    }
    proof {
        let players = state.render.players@;
        assert forall|i: int| 0 <= i < players.len() && (#[trigger] players[i]) is Some implies {
            let p = players[i]->0;
            &&& p.tank is Some ==> out@.contains(
                Wanted { player: p.id, slot: VehicleSlot::Tank, vehicle: p.tank->0 },
            )
            &&& p.miner is Some ==> out@.contains(
                Wanted { player: p.id, slot: VehicleSlot::Miner, vehicle: p.miner->0 },
            )
            &&& p.plane is Some ==> out@.contains(
                Wanted { player: p.id, slot: VehicleSlot::Plane, vehicle: p.plane->0 },
            )
        } by {
            lemma_everything_there_is_drawn(players, i);
        }
    }
    out
}

/// The keys of one list that another does not hold.
pub open spec fn absent_from(keys: Seq<u16>, others: Seq<u16>, n: nat) -> Seq<u16> {
    gathered(n, |i: int| listed_if(!others.contains(keys[i]), keys[i]))
}

fn holds(keys: &Vec<u16>, key: u16) -> (r: bool)
    ensures
        r == keys@.contains(key),
{
    let mut i: usize = 0;
    while i < keys.len()
        invariant
            i <= keys@.len(),
            forall|k: int| 0 <= k < i ==> #[trigger] keys@[k] != key,
        decreases keys.len() - i,
    {
        if keys[i] == key {
            assert(keys@[i as int] == key);
            return true;
        }
        i = i + 1;
    }
    false
}

fn missing(keys: &Vec<u16>, others: &Vec<u16>) -> (r: Vec<u16>)
    ensures
        forall|key: u16|
            #[trigger] r@.contains(key) <==> keys@.contains(key) && !others@.contains(key),
        r@ == absent_from(keys@, others@, keys@.len()),
{
    let mut out: Vec<u16> = Vec::new();
    let mut i: usize = 0;
    while i < keys.len()
        invariant
            i <= keys@.len(),
            out@ == absent_from(keys@, others@, i as nat),
        decreases keys.len() - i,
    {
        if !holds(others, keys[i]) {
            out.push(keys[i]);
        }
        i = i + 1;
    }
    proof {
        assert(keys@.take(keys@.len() as int) =~= keys@);
        assert forall|key: u16|
            #[trigger] out@.contains(key) <==> keys@.contains(key) && !others@.contains(key) by {
            lemma_absent(keys@, others@, key, keys@.len());
        }
    }
    out
}

/// What has to change on screen.
#[derive(Debug)]
pub struct Changes {
    /// Views of what is gone.
    pub retire: Vec<u16>,
    /// Views of what is new.
    pub spawn: Vec<u16>,
}

/// Compares what is on screen with what is to be drawn.
pub fn reconcile_views(shown: &Vec<u16>, wanted: &Vec<u16>) -> (r: Changes)
    ensures
        forall|key: u16|
            #[trigger] r.retire@.contains(key) <==> shown@.contains(key) && !wanted@.contains(key),
        forall|key: u16|
            #[trigger] r.spawn@.contains(key) <==> wanted@.contains(key) && !shown@.contains(key),
        r.retire@ == absent_from(shown@, wanted@, shown@.len()),
        r.spawn@ == absent_from(wanted@, shown@, wanted@.len()),
{
    Changes { retire: missing(shown, wanted), spawn: missing(wanted, shown) }
}

/// What stands in a player's home corner.
#[derive(Clone, Copy, Debug, PartialEq, Eq, Structural)]
pub enum Emplacement {
    /// Nobody is in the match under that slot, or they are off the field.
    Hidden,
    /// A gun, pointing this way.
    Gun(Real),
    /// The heap where it was.
    Rubble,
}

pub open spec fn emplacement_spec(player: Option<RenderPlayer>) -> Emplacement {
    match player {
        Some(p) => if p.eliminated {
            Emplacement::Hidden
        } else {
            match p.sentinel {
                Some(s) => Emplacement::Gun(s.turret_yaw),
                None => Emplacement::Rubble,
            }
        },
        None => Emplacement::Hidden,
    }
}

/// What stands in a player's home corner.
pub fn emplacement(state: &GameState, slot: u8) -> (r: Emplacement)
    ensures
        ({
            let there = (slot as int) < state.render.players@.len() && state.render.players@[slot as int] is Some
                && !state.render.players@[slot as int]->0.eliminated;
            &&& r == Emplacement::Hidden <==> !there
            &&& there && state.render.players@[slot as int]->0.sentinel is None ==> r
                == Emplacement::Rubble
            &&& there && state.render.players@[slot as int]->0.sentinel is Some ==> r
                == Emplacement::Gun(state.render.players@[slot as int]->0.sentinel->0.turret_yaw)
        }),
        r == emplacement_spec(
            if (slot as int) < state.render.players@.len() {
                state.render.players@[slot as int]
            } else {
                None
            },
        ),
{
    if (slot as usize) < state.render.players.len() {
        if let Some(p) = &state.render.players[slot as usize] {
            if p.eliminated {
                return Emplacement::Hidden;
            }
            return match p.sentinel {
                Some(s) => Emplacement::Gun(s.turret_yaw),
                None => Emplacement::Rubble,
            };
        }
    }
    Emplacement::Hidden
}

/// An impact on screen.
#[derive(Clone, Copy, Debug, PartialEq, Eq)]
pub struct Effect {
    pub kind: HitKind,
    pub age: Real,
    /// The vehicle a shield flash rides, so the arc stays on the hull as it
    /// drives rather than being left behind where the shot landed.
    pub follow: Option<(u8, VehicleSlot)>,
    /// Bearing the blow came in on, which is the face the arc sits on.
    pub angle: Real,
}

/// Whether an effect is the flash of one shield.
pub open spec fn is_flash(e: Effect, follow: Option<(u8, VehicleSlot)>) -> bool {
    e.kind == HitKind::Shield && e.follow == follow
}

/// No shield has two flashes.
pub open spec fn one_flash_each(effects: Seq<Effect>) -> bool {
    forall|i: int, j: int|
        0 <= i < j < effects.len() ==> !(is_flash(
            #[trigger] effects[i],
            (#[trigger] effects[j]).follow,
        ) && effects[j].kind == HitKind::Shield)
}

fn same_hull(a: Option<(u8, VehicleSlot)>, b: Option<(u8, VehicleSlot)>) -> (r: bool)
    ensures
        r == (a == b),
{
    match (a, b) {
        (Some((p, s)), Some((q, t))) => p == q && s == t,
        (None, None) => true,
        _ => false,
    }
}

/// Puts an impact on screen. A hull under fire is hit faster than a flash
/// fades, so a second flash on one hull would just sit on top of the first:
/// restarting the arc already there shows the shield working harder instead.
/// Says which effect was restarted, if one was; otherwise a new one is last.
pub fn show_hit(effects: &mut Vec<Effect>, fx: HitFx) -> (r: Option<usize>)
    requires
        one_flash_each(old(effects)@),
    ensures
        one_flash_each(final(effects)@),
        match r {
            Some(i) => {
                &&& i < old(effects)@.len()
                &&& fx.kind == HitKind::Shield
                &&& is_flash(old(effects)@[i as int], fx.struck)
                &&& final(effects)@ == old(effects)@.update(
                    i as int,
                    Effect { age: 0, angle: fx.angle, ..old(effects)@[i as int] },
                )
            },
            None => {
                &&& fx.kind == HitKind::Shield ==> forall|i: int|
                    0 <= i < old(effects)@.len() ==> !is_flash(
                        #[trigger] old(effects)@[i],
                        fx.struck,
                    )
                &&& final(effects)@ == old(effects)@.push(
                    Effect { kind: fx.kind, age: 0, follow: fx.struck, angle: fx.angle },
                )
            },
        },
{
    let target = fx.target();
    if fx.kind == HitKind::Shield {
        let mut i: usize = 0;
        while i < effects.len()
            invariant
                i <= effects@.len(),
                effects@ == old(effects)@,
                one_flash_each(effects@),
                target == fx.struck,
                fx.kind == HitKind::Shield,
                forall|k: int| 0 <= k < i ==> !is_flash(#[trigger] effects@[k], fx.struck),
            decreases effects.len() - i,
        {
            let e = effects[i];
            if e.kind == HitKind::Shield && same_hull(e.follow, target) {
                let mut again = e;
                again.age = 0;
                again.angle = fx.angle;
                effects[i] = again;
                return Some(i);
            }
            i = i + 1;
        }
    }
    effects.push(Effect { kind: fx.kind, age: 0, follow: target, angle: fx.angle });
    None
}

/// The vehicle of a player, as drawn.
pub open spec fn drawn_vehicle(state: &GameState, player: u8, slot: VehicleSlot) -> Option<
    RenderVehicle,
> {
    if (player as int) < state.render.players@.len() {
        match state.render.players@[player as int] {
            Some(p) => p.vehicle_spec(slot),
            None => None,
        }
    } else {
        None
    }
}

fn vehicle_on_screen(state: &GameState, player: u8, slot: VehicleSlot) -> (r: Option<RenderVehicle>)
    ensures
        (player as int) >= state.render.players@.len() || state.render.players@[player as int] is None
            ==> r is None,
        (player as int) < state.render.players@.len() && state.render.players@[player as int] is Some
            ==> {
            let p = state.render.players@[player as int]->0;
            &&& slot == VehicleSlot::Tank ==> r == p.tank
            &&& slot == VehicleSlot::Miner ==> r == p.miner
            &&& slot == VehicleSlot::Plane ==> r == p.plane
        },
        r == drawn_vehicle(state, player, slot),
{
    if (player as usize) < state.render.players.len() {
        if let Some(p) = &state.render.players[player as usize] {
            return match p.vehicle(slot) {
                Some(v) => Some(*v),
                None => None,
            };
        }
    }
    None
}

/// How high above the ground an impact is: at the height of the aircraft it is
/// on, and on the ground otherwise.
pub fn hit_height(state: &GameState, fx: &HitFx) -> (r: Real)
    ensures
        r == match fx.struck {
            Some((player, VehicleSlot::Plane)) => match drawn_vehicle(
                state,
                player,
                VehicleSlot::Plane,
            ) {
                Some(v) => v.alt,
                None => 0,
            },
            _ => 0,
        },
{
    if let Some((player, VehicleSlot::Plane)) = fx.target() {
        if let Some(v) = vehicle_on_screen(state, player, VehicleSlot::Plane) {
            return v.alt;
        }
    }
    0
}

/// What a frame does to an effect.
#[derive(Clone, Copy, Debug, PartialEq, Eq, Structural)]
pub enum EffectTurn {
    Gone,
    /// A blast stays where it is and swells.
    Swells,
    /// A flash rides this hull.
    Rides(RenderVehicle),
}

/// What a frame does to an effect. `part` is how much of its life is over.
///
/// A flash belongs to a hull, so it goes when the hull does.
pub fn effect_turn(state: &GameState, e: &Effect, part: Real) -> (r: EffectTurn)
    ensures
        r == if part >= ONE {
            EffectTurn::Gone
        } else {
            match e.kind {
                HitKind::Blast => EffectTurn::Swells,
                HitKind::Shield => match e.follow {
                    Some(hull) => match drawn_vehicle(state, hull.0, hull.1) {
                        Some(v) => EffectTurn::Rides(v),
                        None => EffectTurn::Gone,
                    },
                    None => EffectTurn::Gone,
                },
            }
        },
{
    if part >= ONE {
        return EffectTurn::Gone;
    }
    match e.kind {
        HitKind::Blast => EffectTurn::Swells,
        HitKind::Shield => match e.follow {
            Some((player, slot)) => match vehicle_on_screen(state, player, slot) {
                Some(v) => EffectTurn::Rides(v),
                None => EffectTurn::Gone,
            },
            None => EffectTurn::Gone,
        },
    }
}

proof fn lemma_absent(keys: Seq<u16>, others: Seq<u16>, key: u16, n: nat)
    requires
        n <= keys.len(),
    ensures
        absent_from(keys, others, n).contains(key) <==> keys.take(n as int).contains(key)
            && !others.contains(key),
    decreases n,
{
    if n > 0 {
        lemma_absent(keys, others, key, (n - 1) as nat);
        let before = absent_from(keys, others, (n - 1) as nat);
        let last = keys[n - 1];
        let shorter = keys.take(n - 1);
        let longer = keys.take(n as int);
        assert(longer =~= shorter.push(last));
        let after = before + listed_if(!others.contains(last), last);
        assert(absent_from(keys, others, n) == after);
        if before.contains(key) {
            let i = choose|i: int| 0 <= i < before.len() && before[i] == key;
            assert(after[i] == key);
        }
        if !others.contains(last) {
            assert(after[before.len() as int] == last);
        }
        if after.contains(key) {
            let i = choose|i: int| 0 <= i < after.len() && after[i] == key;
            if i < before.len() {
                assert(before[i] == key);
            }
        }
        if longer.contains(key) && last != key {
            let i = choose|i: int| 0 <= i < longer.len() && longer[i] == key;
            assert(shorter[i] == key);
        }
        if shorter.contains(key) {
            let i = choose|i: int| 0 <= i < shorter.len() && shorter[i] == key;
            assert(longer[i] == key);
        }
        assert(longer[n - 1] == last);
    }
}

/// Once the screen has been put right, it shows a thing exactly if the thing is
/// to be drawn.
pub proof fn lemma_views_settle(shown: Seq<u16>, wanted: Seq<u16>, key: u16)
    ensures
        wanted.contains(key) <==> (shown.contains(key) && !absent_from(
            shown,
            wanted,
            shown.len(),
        ).contains(key)) || absent_from(wanted, shown, wanted.len()).contains(key),
{
    lemma_absent(shown, wanted, key, shown.len());
    lemma_absent(wanted, shown, key, wanted.len());
    assert(shown.take(shown.len() as int) =~= shown);
    assert(wanted.take(wanted.len() as int) =~= wanted);
}

/// Two vehicles never share a view.
pub proof fn lemma_views_are_apart(p: u8, s: VehicleSlot, q: u8, t: VehicleSlot)
    requires
        view_key_spec(p, s) == view_key_spec(q, t),
    ensures
        p == q,
        s == t,
{
}

/// Every vehicle there is is to be drawn.
pub proof fn lemma_everything_there_is_drawn(players: Seq<Option<RenderPlayer>>, i: int)
    requires
        0 <= i < players.len(),
        players[i] is Some,
    ensures
        ({
            let p = players[i]->0;
            let all = all_wanted(players, players.len());
            &&& p.tank is Some ==> all.contains(
                Wanted { player: p.id, slot: VehicleSlot::Tank, vehicle: p.tank->0 },
            )
            &&& p.miner is Some ==> all.contains(
                Wanted { player: p.id, slot: VehicleSlot::Miner, vehicle: p.miner->0 },
            )
            &&& p.plane is Some ==> all.contains(
                Wanted { player: p.id, slot: VehicleSlot::Plane, vehicle: p.plane->0 },
            )
        }),
{
    let n = players.len();
    let f = |i: int|
        match players[i] {
            Some(p) => wanted_of(p),
            None => Seq::empty(),
        };
    let p = players[i]->0;
    let own = f(i);
    if p.tank is Some {
        let w = Wanted { player: p.id, slot: VehicleSlot::Tank, vehicle: p.tank->0 };
        assert(own[0] == w);
        lemma_gathered_holds(n, f, i, w);
    }
    if p.miner is Some {
        let w = Wanted { player: p.id, slot: VehicleSlot::Miner, vehicle: p.miner->0 };
        let k: int = if p.tank is Some {
            1
        } else {
            0
        };
        assert(own[k] == w);
        lemma_gathered_holds(n, f, i, w);
    }
    if p.plane is Some {
        let w = Wanted { player: p.id, slot: VehicleSlot::Plane, vehicle: p.plane->0 };
        assert(own[own.len() - 1] == w);
        lemma_gathered_holds(n, f, i, w);
    }
}

/// Nothing is drawn that is not there.
pub proof fn lemma_nothing_else_is_drawn(players: Seq<Option<RenderPlayer>>, w: Wanted)
    requires
        all_wanted(players, players.len()).contains(w),
    ensures
        exists|i: int|
            #![trigger players[i]]
            0 <= i < players.len() && players[i] is Some && players[i]->0.id == w.player
                && players[i]->0.vehicle_spec(w.slot) == Some(w.vehicle),
{
    let n = players.len();
    let f = |i: int|
        match players[i] {
            Some(p) => wanted_of(p),
            None => Seq::empty(),
        };
    lemma_gathered_from(n, f, w);
    let i = choose|i: int| 0 <= i < n && (#[trigger] f(i)).contains(w);
    let own = f(i);
    let z = choose|z: int| 0 <= z < own.len() && own[z] == w;
    assert(own[z] == w);
    assert(players[i] is Some);
}

} // verus!
