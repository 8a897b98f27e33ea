//! A match fed the same is the same match.
//!
//! Everything that can happen to a match is a [`Deed`], with what was measured
//! for it. What a deed does is fixed by the match it is done to, so two matches
//! that start alike and are fed alike stay alike.

use vstd::prelude::*;

use crate::capture::{
    is_captor, is_rescued, lemma_one_captor, rescues, standoff_of, standoffs_outcome, stands_over,
    taking_outcome, Taking, Wreck,
};
use crate::collide::{all_bodies, first_body, settle_outcome, Body, Brush};
use crate::combat::{
    air_targets, damage_outcome, ground_targets, strike_outcome, Blow, Hit,
};
use crate::drive::{drive_outcome, fly_outcome, helm_outcome, Asked, Flew, Ground};
use crate::economy::{mine_outcome, unload_outcome};
use crate::game::{
    disconnect_outcome, first_free, held_by, ids_where, input_outcome, join_outcome,
    launch_outcome, mode_outcome, name_taken, opened, purchase_outcome, restart_outcome, victory_outcome,
    Game, Hill, OreDeposit,
};
use crate::measure::{gathered, listed_if, Real};
use crate::player::Player;
use crate::protocol::{
    DenyReason, GameEvent, InputFrame, MinerMode, PowerUp, VehicleSlot, CAPTURES_TO_WIN,
};
use crate::respawn::{players_back, respawn_outcome, tanks_back, Comeback, Wait};
use crate::rules::{Capacity, Rules};
use crate::shells::{blast_outcome, flight_outcome, Blast, Flight};
use crate::tick::begin_outcome;
use crate::weapons::{
    all_fired, sentinel_shells, sentinels_outcome, sentinels_risen, weapons_outcome, Sights, Watch,
};

verus! {

/// Something that happens to a match, with everything measured for it.
pub enum Deed {
    Join { token: u64, name: Seq<char> },
    Disconnect { id: u8 },
    Input { id: u8, frame: InputFrame },
    Purchase { id: u8, powerup: PowerUp, tank_holds: Capacity, miner_holds: Capacity },
    Launch { id: u8, holds: Capacity },
    Mode { id: u8, mode: MinerMode },
    Cheats,
    Restart { seed: u64, by: u8, ore: Vec<OreDeposit>, hills: Vec<Hill> },
    Begin { ages: Seq<Real> },
    Helm { player: u8, asked: Asked },
    Drive { ground: Seq<Ground> },
    Fly { flown: Seq<Flew> },
    Settle { bodies: Seq<Body>, speeds: Seq<Real> },
    Damage { player: u8, slot: VehicleSlot, blow: Blow, attacker: u8, bearing: Real },
    Meet {
        a: u8,
        b: u8,
        brush: Brush,
        a_blow: Blow,
        b_blow: Blow,
        a_face: Real,
        b_face: Real,
    },
    Weapons { sights: Seq<Sights> },
    Sentinels { watches: Seq<Watch> },
    Flight { flights: Seq<Flight> },
    Blast { bomb: Blast, distances: Seq<Real> },
    Strike { hit: Hit, blow: Blow },
    Mine { player: u8, site: int, capacity: Real, left: Real, cargo: Real },
    Unload { player: u8, at_base: bool, whole: u32, cargo: Real },
    Standoffs { wrecks: Seq<Wreck> },
    Take { taking: Taking, aboard: u32 },
    Respawn { waits: Seq<Wait> },
    Victory,
}

/// What a deed does to a match.
pub open spec fn happened(before: &Game, after: &Game, deed: Deed) -> bool {
    match deed {
        Deed::Join { token, name } => exists|r: Result<u8, DenyReason>|
            join_outcome(before, after, token, name, r),
        Deed::Disconnect { id } => disconnect_outcome(before, after, id),
        Deed::Input { id, frame } => input_outcome(before, after, id, frame),
        Deed::Purchase { id, powerup, tank_holds, miner_holds } => purchase_outcome(
            before,
            after,
            id,
            powerup,
            tank_holds,
            miner_holds,
        ),
        Deed::Launch { id, holds } => launch_outcome(before, after, id, holds),
        Deed::Mode { id, mode } => mode_outcome(before, after, id, mode),
        Deed::Cheats => *after == Game { cheats: !before.cheats, ..*before },
        Deed::Restart { seed, by, ore, hills } => restart_outcome(
            before,
            after,
            seed,
            by,
            ore,
            hills,
        ),
        Deed::Begin { ages } => begin_outcome(before, after, ages),
        Deed::Helm { player, asked } => helm_outcome(before, after, player, asked),
        Deed::Drive { ground } => drive_outcome(before, after, ground),
        Deed::Fly { flown } => fly_outcome(before, after, flown),
        Deed::Settle { bodies, speeds } => settle_outcome(before, after, bodies, speeds),
        Deed::Damage { player, slot, blow, attacker, bearing } => damage_outcome(
            before,
            after,
            player,
            slot,
            blow,
            attacker,
            bearing,
        ),
        Deed::Meet { a, b, brush, a_blow, b_blow, a_face, b_face } => before.meet_outcome(
            after,
            a,
            b,
            brush,
            a_blow,
            b_blow,
            a_face,
            b_face,
        ),
        Deed::Weapons { sights } => sights.len() == before.players@.len() && weapons_outcome(
            before,
            after,
            sights,
        ),
        Deed::Sentinels { watches } => watches.len() == before.players@.len()
            && sentinels_outcome(before, after, watches),
        Deed::Flight { flights } => flight_outcome(before, after, flights),
        Deed::Blast { bomb, distances } => blast_outcome(before, after, bomb, distances),
        Deed::Strike { hit, blow } => strike_outcome(before, after, hit, blow),
        Deed::Mine { player, site, capacity, left, cargo } => mine_outcome(
            before,
            after,
            player,
            site,
            capacity,
            left,
            cargo,
        ),
        Deed::Unload { player, at_base, whole, cargo } => unload_outcome(
            before,
            after,
            player,
            at_base,
            whole,
            cargo,
        ),
        Deed::Standoffs { wrecks } => wrecks.len() == before.players@.len() && standoffs_outcome(
            before,
            after,
            wrecks,
        ),
        Deed::Take { taking, aboard } => taking_outcome(before, after, taking, aboard),
        Deed::Respawn { waits } => waits.len() == before.players@.len() && respawn_outcome(
            before,
            after,
            waits,
        ),
        Deed::Victory => victory_outcome(before, after),
    }
}

/// Whether two players are the same in everything, down to how the name is
/// spelled.
pub open spec fn same_player(p: Player, q: Player) -> bool {
    &&& q == Player { name: q.name, ..p }
    &&& q.name@ == p.name@
}

pub open spec fn same_slot(a: Option<Player>, b: Option<Player>) -> bool {
    match (a, b) {
        (Some(p), Some(q)) => same_player(p, q),
        (None, None) => true,
        _ => false,
    }
}

pub open spec fn same_players(a: Seq<Option<Player>>, b: Seq<Option<Player>>) -> bool {
    &&& a.len() == b.len()
    &&& forall|i: int| #![trigger a[i]] #![trigger b[i]] 0 <= i < a.len() ==> same_slot(a[i], b[i])
}

/// Whether two matches agree on everything: the vehicles and the bank of every
/// player, what is in the air and in the ground, what has been told, the status
/// and the tick.
pub open spec fn alike(a: &Game, b: &Game) -> bool {
    &&& *b == Game {
        players: b.players,
        ore: b.ore,
        hills: b.hills,
        projectiles: b.projectiles,
        dirty_ore: b.dirty_ore,
        events: b.events,
        fx: b.fx,
        ..*a
    }
    &&& same_players(a.players@, b.players@)
    &&& a.ore@ =~= b.ore@
    &&& a.hills@ =~= b.hills@
    &&& a.projectiles@ =~= b.projectiles@
    &&& a.dirty_ore@ =~= b.dirty_ore@
    &&& a.events@ =~= b.events@
    &&& a.fx@ =~= b.fx@
}

proof fn lemma_gathered_alike<T>(n: nat, f: spec_fn(int) -> Seq<T>, g: spec_fn(int) -> Seq<T>)
    requires
        forall|i: int| 0 <= i < n ==> #[trigger] f(i) == g(i),
    ensures
        gathered(n, f) == gathered(n, g),
    decreases n,
{
    if n > 0 {
        lemma_gathered_alike((n - 1) as nat, f, g);
        assert(f(n - 1) == g(n - 1));
    }
}

proof fn lemma_fields_alike(rules: &Rules, a: Seq<Option<Player>>, b: Seq<Option<Player>>)
    requires
        same_players(a, b),
    ensures
        ground_targets(rules, a) == ground_targets(rules, b),
        air_targets(rules, a) == air_targets(rules, b),
        all_bodies(rules, a) == all_bodies(rules, b),
    decreases a.len(),
{
    if a.len() > 0 {
        assert(same_slot(a[a.len() - 1], b[a.len() - 1]));
        assert(same_players(a.drop_last(), b.drop_last()));
        lemma_fields_alike(rules, a.drop_last(), b.drop_last());
    }
}

/// Whether a predicate does not look at names.
pub open spec fn nameless(pred: spec_fn(Player) -> bool) -> bool {
    forall|p: Player, q: Player| #[trigger] same_player(p, q) ==> pred(p) == pred(q)
}

proof fn lemma_ids_alike(
    a: Seq<Option<Player>>,
    b: Seq<Option<Player>>,
    pred: spec_fn(Player) -> bool,
)
    requires
        same_players(a, b),
        nameless(pred),
    ensures
        ids_where(a, pred) == ids_where(b, pred),
    decreases a.len(),
{
    if a.len() > 0 {
        assert(same_slot(a[a.len() - 1], b[a.len() - 1]));
        assert(same_players(a.drop_last(), b.drop_last()));
        lemma_ids_alike(a.drop_last(), b.drop_last(), pred);
        if a.last() is Some {
            assert(same_player(a.last()->0, b.last()->0));
        }
    }
}

proof fn lemma_orders_alike(a: &Game, a2: &Game, b: &Game, b2: &Game, deed: Deed)
    requires
        alike(a, b),
        happened(a, a2, deed),
        happened(b, b2, deed),
        deed is Disconnect || deed is Input || deed is Launch || deed is Mode || deed is Cheats,
    ensures
        alike(a2, b2),
{
}

proof fn lemma_purchase_alike(a: &Game, a2: &Game, b: &Game, b2: &Game, deed: Deed)
    requires
        alike(a, b),
        happened(a, a2, deed),
        happened(b, b2, deed),
        deed is Purchase,
    ensures
        alike(a2, b2),
{
}

proof fn lemma_helm_alike(a: &Game, a2: &Game, b: &Game, b2: &Game, deed: Deed)
    requires
        alike(a, b),
        happened(a, a2, deed),
        happened(b, b2, deed),
        deed is Helm || deed is Mine || deed is Unload,
    ensures
        alike(a2, b2),
{
}

proof fn lemma_damage_alike(a: &Game, a2: &Game, b: &Game, b2: &Game, deed: Deed)
    requires
        alike(a, b),
        happened(a, a2, deed),
        happened(b, b2, deed),
        deed is Damage || deed is Strike,
    ensures
        alike(a2, b2),
{
}

proof fn lemma_meeting_alike(a: &Game, a2: &Game, b: &Game, b2: &Game, deed: Deed)
    requires
        alike(a, b),
        happened(a, a2, deed),
        happened(b, b2, deed),
        deed is Meet,
    ensures
        alike(a2, b2),
{
}

proof fn lemma_moves_alike(a: &Game, a2: &Game, b: &Game, b2: &Game, deed: Deed)
    requires
        alike(a, b),
        happened(a, a2, deed),
        happened(b, b2, deed),
        deed is Drive || deed is Fly,
    ensures
        alike(a2, b2),
{
}

proof fn lemma_begin_alike(a: &Game, a2: &Game, b: &Game, b2: &Game, deed: Deed)
    requires
        alike(a, b),
        happened(a, a2, deed),
        happened(b, b2, deed),
        deed is Begin || deed is Restart,
    ensures
        alike(a2, b2),
{
    let pred = |p: Player| p.connected;
    assert(nameless(pred));
    lemma_ids_alike(a.players@, b.players@, pred);
}

proof fn lemma_victory_alike(a: &Game, a2: &Game, b: &Game, b2: &Game, deed: Deed)
    requires
        alike(a, b),
        happened(a, a2, deed),
        happened(b, b2, deed),
        deed is Victory,
    ensures
        alike(a2, b2),
{
    let standing = |p: Player| !p.eliminated;
    let leading = |p: Player| p.captures >= CAPTURES_TO_WIN;
    assert(nameless(standing));
    assert(nameless(leading));
    lemma_ids_alike(a.players@, b.players@, standing);
    lemma_ids_alike(a.players@, b.players@, leading);
}

proof fn lemma_settling_alike(a: &Game, a2: &Game, b: &Game, b2: &Game, deed: Deed)
    requires
        alike(a, b),
        happened(a, a2, deed),
        happened(b, b2, deed),
        deed is Settle,
    ensures
        alike(a2, b2),
{
    assert forall|i: int| 0 <= i < a.players@.len() implies first_body(
        &a.rules,
        a.players@,
        i,
    ) == first_body(&b.rules, b.players@, i) by {
        assert(same_players(a.players@.take(i), b.players@.take(i)));
        lemma_fields_alike(&a.rules, a.players@.take(i), b.players@.take(i));
    }
}

proof fn lemma_flight_alike(a: &Game, a2: &Game, b: &Game, b2: &Game, deed: Deed)
    requires
        alike(a, b),
        happened(a, a2, deed),
        happened(b, b2, deed),
        deed is Flight || deed is Blast,
    ensures
        alike(a2, b2),
{
    lemma_fields_alike(&a.rules, a.players@, b.players@);
}

proof fn lemma_shots_alike(
    rules: &Rules,
    a: Seq<Option<Player>>,
    b: Seq<Option<Player>>,
    sights: Seq<Sights>,
)
    requires
        same_players(a, b),
        sights.len() <= a.len(),
    ensures
        all_fired(rules, ground_targets(rules, a), a, sights, sights.len()) == all_fired(
            rules,
            ground_targets(rules, b),
            b,
            sights,
            sights.len(),
        ),
{
    lemma_fields_alike(rules, a, b);
    let targets = ground_targets(rules, a);
    let f = |i: int|
        match a[i] {
            Some(p) if !p.eliminated => p.fired(rules, targets, &sights[i]),
            _ => Seq::empty(),
        };
    let g = |i: int|
        match b[i] {
            Some(p) if !p.eliminated => p.fired(rules, targets, &sights[i]),
            _ => Seq::empty(),
        };
    assert forall|i: int| 0 <= i < sights.len() implies #[trigger] f(i) == g(i) by {
        assert(same_slot(a[i], b[i]));
    }
    lemma_gathered_alike(sights.len(), f, g);
}

proof fn lemma_weapons_alike(a: &Game, a2: &Game, b: &Game, b2: &Game, deed: Deed)
    requires
        alike(a, b),
        happened(a, a2, deed),
        happened(b, b2, deed),
        deed is Weapons,
    ensures
        alike(a2, b2),
{
    lemma_fields_alike(&a.rules, a.players@, b.players@);
    lemma_shots_alike(&a.rules, a.players@, b.players@, deed->sights);
}

proof fn lemma_watches_alike(
    rules: &Rules,
    a: Seq<Option<Player>>,
    b: Seq<Option<Player>>,
    watches: Seq<Watch>,
)
    requires
        same_players(a, b),
        watches.len() == a.len(),
    ensures
        sentinel_shells(rules, ground_targets(rules, a), a, watches, watches.len())
            == sentinel_shells(rules, ground_targets(rules, b), b, watches, watches.len()),
        sentinels_risen(a, watches, watches.len()) == sentinels_risen(b, watches, watches.len()),
{
    lemma_fields_alike(rules, a, b);
    let targets = ground_targets(rules, a);
    let f = |i: int|
        match a[i] {
            Some(p) if !p.eliminated => p.sentinel.shell(rules, p.id, targets, &watches[i]),
            _ => Seq::empty(),
        };
    let g = |i: int|
        match b[i] {
            Some(p) if !p.eliminated => p.sentinel.shell(rules, p.id, targets, &watches[i]),
            _ => Seq::empty(),
        };
    assert forall|i: int| 0 <= i < watches.len() implies #[trigger] f(i) == g(i) by {
        assert(same_slot(a[i], b[i]));
    }
    lemma_gathered_alike(watches.len(), f, g);
    let f = |i: int|
        match a[i] {
            Some(p) => listed_if(
                !p.eliminated && p.sentinel.rises(&watches[i]),
                GameEvent::SentinelRebuilt { player: p.id },
            ),
            None => Seq::empty(),
        };
    let g = |i: int|
        match b[i] {
            Some(p) => listed_if(
                !p.eliminated && p.sentinel.rises(&watches[i]),
                GameEvent::SentinelRebuilt { player: p.id },
            ),
            None => Seq::empty(),
        };
    assert forall|i: int| 0 <= i < watches.len() implies #[trigger] f(i) == g(i) by {
        assert(same_slot(a[i], b[i]));
    }
    lemma_gathered_alike(watches.len(), f, g);
}

proof fn lemma_sentinels_alike(a: &Game, a2: &Game, b: &Game, b2: &Game, deed: Deed)
    requires
        alike(a, b),
        happened(a, a2, deed),
        happened(b, b2, deed),
        deed is Sentinels,
    ensures
        alike(a2, b2),
{
    lemma_fields_alike(&a.rules, a.players@, b.players@);
    lemma_watches_alike(&a.rules, a.players@, b.players@, deed->watches);
}

proof fn lemma_returns_alike(a: Seq<Option<Player>>, b: Seq<Option<Player>>, waits: Seq<Wait>)
    requires
        same_players(a, b),
        waits.len() == a.len(),
    ensures
        tanks_back(a, waits, waits.len()) == tanks_back(b, waits, waits.len()),
        players_back(a, waits, waits.len()) == players_back(b, waits, waits.len()),
{
    let f = |i: int|
        listed_if(
            a[i] is Some && a[i]->0.comeback(waits[i]) == Comeback::Tank,
            GameEvent::TankRespawned { player: a[i]->0.id },
        );
    let g = |i: int|
        listed_if(
            b[i] is Some && b[i]->0.comeback(waits[i]) == Comeback::Tank,
            GameEvent::TankRespawned { player: b[i]->0.id },
        );
    assert forall|i: int| 0 <= i < waits.len() implies #[trigger] f(i) == g(i) by {
        assert(same_slot(a[i], b[i]));
    }
    lemma_gathered_alike(waits.len(), f, g);
    let f = |i: int|
        listed_if(
            a[i] is Some && a[i]->0.comeback(waits[i]) == Comeback::Player,
            GameEvent::PlayerReturned { player: a[i]->0.id },
        );
    let g = |i: int|
        listed_if(
            b[i] is Some && b[i]->0.comeback(waits[i]) == Comeback::Player,
            GameEvent::PlayerReturned { player: b[i]->0.id },
        );
    assert forall|i: int| 0 <= i < waits.len() implies #[trigger] f(i) == g(i) by {
        assert(same_slot(a[i], b[i]));
    }
    lemma_gathered_alike(waits.len(), f, g);
}

proof fn lemma_respawns_alike(a: &Game, a2: &Game, b: &Game, b2: &Game, deed: Deed)
    requires
        alike(a, b),
        happened(a, a2, deed),
        happened(b, b2, deed),
        deed is Respawn,
    ensures
        alike(a2, b2),
{
    lemma_returns_alike(a.players@, b.players@, deed->waits);
}

proof fn lemma_standoff_alike(
    rules: &Rules,
    a: Seq<Option<Player>>,
    b: Seq<Option<Player>>,
    ranges: Seq<Real>,
    owner: u8,
)
    requires
        same_players(a, b),
    ensures
        standoff_of(rules, a, ranges, owner) == standoff_of(rules, b, ranges, owner),
{
    assert forall|k: int| #[trigger] stands_over(rules, a, ranges, k) == stands_over(
        rules,
        b,
        ranges,
        k,
    ) by {
        if 0 <= k < a.len() {
            assert(same_slot(a[k], b[k]));
        }
    }
    assert forall|k: int| #[trigger] is_captor(rules, a, ranges, owner, k) == is_captor(
        rules,
        b,
        ranges,
        owner,
        k,
    ) by {
        if is_captor(rules, a, ranges, owner, k) {
            assert forall|j: int| 0 <= j < k && j != owner implies !stands_over(
                rules,
                b,
                ranges,
                j,
            ) by {
                assert(!stands_over(rules, a, ranges, j));
            }
        }
        if is_captor(rules, b, ranges, owner, k) {
            assert(stands_over(rules, a, ranges, k));
            assert forall|j: int| 0 <= j < k && j != owner implies !stands_over(
                rules,
                a,
                ranges,
                j,
            ) by {
                assert(!stands_over(rules, b, ranges, j));
            }
        }
    }
    if exists|k: int| is_captor(rules, a, ranges, owner, k) {
        let k = choose|k: int| is_captor(rules, a, ranges, owner, k);
        assert(is_captor(rules, b, ranges, owner, k));
        let j = choose|k: int| is_captor(rules, b, ranges, owner, k);
        lemma_one_captor(rules, b, ranges, owner, k, j);
    }
    if exists|k: int| is_captor(rules, b, ranges, owner, k) {
        let k = choose|k: int| is_captor(rules, b, ranges, owner, k);
        assert(is_captor(rules, a, ranges, owner, k));
    }
}

proof fn lemma_rescues_alike(
    rules: &Rules,
    a: Seq<Option<Player>>,
    b: Seq<Option<Player>>,
    wrecks: Seq<Wreck>,
)
    requires
        same_players(a, b),
        wrecks.len() == a.len(),
    ensures
        rescues(rules, a, wrecks, wrecks.len()) == rescues(rules, b, wrecks, wrecks.len()),
{
    let f = |i: int|
        listed_if(
            is_rescued(rules, a, wrecks, i),
            GameEvent::MinerRescued { player: a[i]->0.id },
        );
    let g = |i: int|
        listed_if(
            is_rescued(rules, b, wrecks, i),
            GameEvent::MinerRescued { player: b[i]->0.id },
        );
    assert forall|i: int| 0 <= i < wrecks.len() implies #[trigger] f(i) == g(i) by {
        assert(same_slot(a[i], b[i]));
        if a[i] is Some {
            lemma_standoff_alike(rules, a, b, wrecks[i].ranges@, a[i]->0.id);
        }
    }
    lemma_gathered_alike(wrecks.len(), f, g);
}

proof fn lemma_standoffs_alike(a: &Game, a2: &Game, b: &Game, b2: &Game, deed: Deed)
    requires
        alike(a, b),
        happened(a, a2, deed),
        happened(b, b2, deed),
        deed is Standoffs,
    ensures
        alike(a2, b2),
{
    let wrecks = deed->wrecks;
    lemma_rescues_alike(&a.rules, a.players@, b.players@, wrecks);
    assert forall|i: int| 0 <= i < a.players@.len() && a.players@[i] is Some implies standoff_of(
        &a.rules,
        a.players@,
        wrecks[i].ranges@,
        a.players@[i]->0.id,
    ) == #[trigger] standoff_of(
        &b.rules,
        b.players@,
        wrecks[i].ranges@,
        b.players@[i]->0.id,
    ) by {
        assert(same_slot(a.players@[i], b.players@[i]));
        lemma_standoff_alike(
            &a.rules,
            a.players@,
            b.players@,
            wrecks[i].ranges@,
            a.players@[i]->0.id,
        );
    }
}

proof fn lemma_taking_alike(a: &Game, a2: &Game, b: &Game, b2: &Game, deed: Deed)
    requires
        alike(a, b),
        happened(a, a2, deed),
        happened(b, b2, deed),
        deed is Take,
    ensures
        alike(a2, b2),
{
}

proof fn lemma_join_alike(
    a: &Game,
    a2: &Game,
    b: &Game,
    b2: &Game,
    token: u64,
    name: Seq<char>,
    r: Result<u8, DenyReason>,
    s: Result<u8, DenyReason>,
)
    requires
        a.wf(),
        b.wf(),
        alike(a, b),
        join_outcome(a, a2, token, name, r),
        join_outcome(b, b2, token, name, s),
    ensures
        r == s,
        alike(a2, b2),
{
    let (pa, pb) = (a.players@, b.players@);
    assert(name_taken(pa, token, name) == name_taken(pb, token, name)) by {
        if name_taken(pa, token, name) {
            let i = choose|i: int|
                0 <= i < pa.len() && (#[trigger] pa[i]) is Some && pa[i]->0.token != token
                    && pa[i]->0.name@ == name;
            assert(same_slot(pa[i], pb[i]));
        }
        if name_taken(pb, token, name) {
            let i = choose|i: int|
                0 <= i < pb.len() && (#[trigger] pb[i]) is Some && pb[i]->0.token != token
                    && pb[i]->0.name@ == name;
            assert(same_slot(pa[i], pb[i]));
        }
    }
    assert forall|i: int| #[trigger] held_by(pa, token, i) == held_by(pb, token, i) by {
        if 0 <= i < pa.len() {
            assert(same_slot(pa[i], pb[i]));
        }
    }
    assert forall|i: int| #[trigger] first_free(pa, i) == first_free(pb, i) by {
        if 0 <= i < pa.len() {
            assert(same_slot(pa[i], pb[i]));
        }
        if first_free(pa, i) {
            assert forall|j: int| 0 <= j < i implies (#[trigger] pb[j]) is Some by {
                assert(pa[j] is Some);
            }
        }
        if first_free(pb, i) {
            assert forall|j: int| 0 <= j < i implies (#[trigger] pa[j]) is Some by {
                assert(pb[j] is Some);
            }
        }
    }
    if exists|i: int| held_by(pa, token, i) {
        let i = choose|i: int| held_by(pa, token, i);
        assert(held_by(pb, token, i));
    }
    if exists|i: int| held_by(pb, token, i) {
        let i = choose|i: int| held_by(pb, token, i);
        assert(held_by(pa, token, i));
    }
    if exists|i: int| first_free(pa, i) {
        let i = choose|i: int| first_free(pa, i);
        assert(first_free(pb, i));
    }
    if exists|i: int| first_free(pb, i) {
        let i = choose|i: int| first_free(pb, i);
        assert(first_free(pa, i));
    }
    if r is Ok && s is Ok {
        let (i, j) = (r->Ok_0 as int, s->Ok_0 as int);
        if held_by(pa, token, i) && held_by(pb, token, j) {
            assert(held_by(pa, token, j));
            if i < j {
                assert(pa[i]->0.token != pa[j]->0.token);
            } else if j < i {
                assert(pa[j]->0.token != pa[i]->0.token);
            }
        } else {
            assert(first_free(pa, i) && first_free(pa, j));
        }
        assert(i == j);
        assert(same_slot(pa[i], pb[i]));
        assert(same_slot(a2.players@[i], b2.players@[i]));
    }
}

/// Two matches opened on the same field under the same rules are alike.
pub proof fn lemma_matches_open_alike(
    a: &Game,
    b: &Game,
    rules: Rules,
    seed: u64,
    ore: Seq<OreDeposit>,
    hills: Seq<Hill>,
)
    requires
        opened(a, rules, seed, ore, hills),
        opened(b, rules, seed, ore, hills),
    ensures
        alike(a, b),
{
}

/// A deed done to two matches that are alike leaves them alike.
pub proof fn lemma_a_deed_keeps_matches_alike(a: &Game, a2: &Game, b: &Game, b2: &Game, deed: Deed)
    requires
        a.wf(),
        b.wf(),
        alike(a, b),
        happened(a, a2, deed),
        happened(b, b2, deed),
    ensures
        alike(a2, b2),
{
    match deed {
        Deed::Join { token, name } => {
            let r = choose|r: Result<u8, DenyReason>| join_outcome(a, a2, token, name, r);
            let s = choose|s: Result<u8, DenyReason>| join_outcome(b, b2, token, name, s);
            lemma_join_alike(a, a2, b, b2, token, name, r, s);
        },
        Deed::Purchase { .. } => lemma_purchase_alike(a, a2, b, b2, deed),
        Deed::Restart { .. } | Deed::Begin { .. } => lemma_begin_alike(a, a2, b, b2, deed),
        Deed::Helm { .. } | Deed::Mine { .. } | Deed::Unload { .. } => lemma_helm_alike(
            a,
            a2,
            b,
            b2,
            deed,
        ),
        Deed::Drive { .. } | Deed::Fly { .. } => lemma_moves_alike(a, a2, b, b2, deed),
        Deed::Settle { .. } => lemma_settling_alike(a, a2, b, b2, deed),
        Deed::Damage { .. } | Deed::Strike { .. } => lemma_damage_alike(a, a2, b, b2, deed),
        Deed::Meet { .. } => lemma_meeting_alike(a, a2, b, b2, deed),
        Deed::Weapons { .. } => lemma_weapons_alike(a, a2, b, b2, deed),
        Deed::Sentinels { .. } => lemma_sentinels_alike(a, a2, b, b2, deed),
        Deed::Flight { .. } | Deed::Blast { .. } => lemma_flight_alike(a, a2, b, b2, deed),
        Deed::Standoffs { .. } => lemma_standoffs_alike(a, a2, b, b2, deed),
        Deed::Take { .. } => lemma_taking_alike(a, a2, b, b2, deed),
        Deed::Respawn { .. } => lemma_respawns_alike(a, a2, b, b2, deed),
        Deed::Victory => lemma_victory_alike(a, a2, b, b2, deed),
        _ => lemma_orders_alike(a, a2, b, b2, deed),
    }
}

/// Whether a match went through these states, one deed after the other.
pub open spec fn played(states: Seq<Game>, deeds: Seq<Deed>) -> bool {
    &&& states.len() == deeds.len() + 1
    &&& forall|k: int| 0 <= k < states.len() ==> (#[trigger] states[k]).wf()
    &&& forall|k: int|
        0 <= k < deeds.len() ==> happened(&states[k], &states[k + 1], #[trigger] deeds[k])
}

/// A match is reproducible: two that begin alike and are fed alike agree on
/// everything after every deed.
pub proof fn lemma_matches_fed_alike_stay_alike(
    a: Seq<Game>,
    b: Seq<Game>,
    deeds: Seq<Deed>,
    k: int,
)
    requires
        played(a, deeds),
        played(b, deeds),
        alike(&a[0], &b[0]),
        0 <= k <= deeds.len(),
    ensures
        alike(&a[k], &b[k]),
    decreases k,
{
    if k > 0 {
        lemma_matches_fed_alike_stay_alike(a, b, deeds, k - 1);
        let deed = deeds[k - 1];
        assert(happened(&a[k - 1], &a[k], deed));
        assert(happened(&b[k - 1], &b[k], deed));
        lemma_a_deed_keeps_matches_alike(&a[k - 1], &a[k], &b[k - 1], &b[k], deed);
    }
}

/// A tick is counted once, when it begins, and nothing else counts it.
pub proof fn lemma_only_a_tick_is_counted(before: &Game, after: &Game, deed: Deed)
    requires
        happened(before, after, deed),
    ensures
        after.tick == if deed is Begin {
            if before.tick == u32::MAX {
                0
            } else {
                (before.tick + 1) as u32
            }
        } else {
            before.tick
        },
{
}

} // verus!
