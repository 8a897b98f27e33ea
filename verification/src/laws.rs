//! What holds of a match whatever happens in it.

use vstd::prelude::*;

use crate::capture::{captured, enriched, with_slot, Taking};
use crate::combat::{Hittable, Target};
use crate::game::{
    asking_price, can_launch, disconnect_outcome, held_by, input_outcome, join_outcome, launch_outcome,
    leader_ids, name_taken, purchase_outcome, purchase_refusal, purchased,
    restart_outcome, standing_ids, victor, victory_outcome, Game, Hill, OreDeposit, Projectile,
};
use crate::measure::Real;
use crate::player::Player;
use crate::protocol::{
    lemma_held_after_buying, DenyReason, GameStatus, InputFrame, PowerUp, ProjectileKind,
    RejectReason, CAPTURES_TO_WIN,
};
use crate::rules::{Capacity, Rules};
use crate::shells::{contact_keys, fate_of, Fate, Flight};
use crate::weapons::{advanced, engaged, in_reach, Watch};

verus! {

/// A player who comes back under the token they had is let in, in the slot they
/// had, with everything exactly where they left it.
pub proof fn lemma_a_known_token_resumes(
    before: &Game,
    after: &Game,
    token: u64,
    name: Seq<char>,
    r: Result<u8, DenyReason>,
    i: int,
)
    requires
        before.wf(),
        join_outcome(before, after, token, name, r),
        held_by(before.players@, token, i),
        !name_taken(before.players@, token, name),
    ensures
        r == Ok::<u8, DenyReason>(i as u8),
        after.players@[i] is Some,
        ({
            let p = before.players@[i]->0;
            let q = after.players@[i]->0;
            &&& q.connected
            &&& q.id == p.id && q.token == p.token
            &&& q.credits == p.credits && q.ore_mined == p.ore_mined
            &&& q.powerups == p.powerups && q.missiles == p.missiles && q.captures == p.captures
            &&& q.tank == p.tank && q.miner == p.miner && q.plane == p.plane
            &&& q.sortie_cooldown == p.sortie_cooldown && q.sentinel == p.sentinel
            &&& q.miner_mode == p.miner_mode
            &&& q.eliminated == p.eliminated && q.down_for == p.down_for
            &&& q.respawn_timer == p.respawn_timer
        }),
        forall|k: int|
            0 <= k < before.players@.len() && k != i ==> #[trigger] after.players@[k]
                == before.players@[k],
{
    let k = r->Ok_0 as int;
    assert(r is Ok);
    assert(held_by(before.players@, token, k));
    if k < i {
        assert(before.players@[k]->0.token != before.players@[i]->0.token);
    } else if i < k {
        assert(before.players@[i]->0.token != before.players@[k]->0.token);
    }
}

/// Dropping out and coming back is as if nothing had happened, but for the
/// input, which starts over.
pub proof fn lemma_a_drop_is_recoverable(
    first: &Game,
    dropped: &Game,
    back: &Game,
    id: u8,
    name: Seq<char>,
    r: Result<u8, DenyReason>,
)
    requires
        first.wf(),
        dropped.wf(),
        first.player_spec(id) is Some,
        disconnect_outcome(first, dropped, id),
        join_outcome(dropped, back, first.player_spec(id)->0.token, name, r),
        !name_taken(first.players@, first.player_spec(id)->0.token, name),
    ensures
        r == Ok::<u8, DenyReason>(id),
        back.players@[id as int] is Some,
        ({
            let p = first.players@[id as int]->0;
            let q = back.players@[id as int]->0;
            &&& q.connected
            &&& q.credits == p.credits && q.powerups == p.powerups && q.missiles == p.missiles
            &&& q.tank == p.tank && q.miner == p.miner && q.plane == p.plane
            &&& q.captures == p.captures && q.ore_mined == p.ore_mined
        }),
{
    let token = first.player_spec(id)->0.token;
    assert(first.players@[id as int]->0.id == id);
    assert(held_by(dropped.players@, token, id as int));
    if name_taken(dropped.players@, token, name) {
        let k = choose|k: int|
            0 <= k < dropped.players@.len() && (#[trigger] dropped.players@[k]) is Some
                && dropped.players@[k]->0.token != token && dropped.players@[k]->0.name@ == name;
        assert(first.players@[k] is Some && first.players@[k]->0.token != token
            && first.players@[k]->0.name@ == name);
    }
    lemma_a_known_token_resumes(dropped, back, token, name, r, id as int);
}

/// Whoever is turned away leaves the match as it was.
pub proof fn lemma_a_refused_join_changes_nothing(
    before: &Game,
    after: &Game,
    token: u64,
    name: Seq<char>,
    r: Result<u8, DenyReason>,
)
    requires
        join_outcome(before, after, token, name, r),
        r is Err,
    ensures
        after.players@ == before.players@,
        after.events@ == before.events@,
        after.joined == before.joined,
        after.status == before.status,
        after.tick == before.tick,
{
}

/// A name that was asked for belongs to one player.
pub proof fn lemma_a_name_belongs_to_one_player(
    before: &Game,
    after: &Game,
    token: u64,
    name: Seq<char>,
    r: Result<u8, DenyReason>,
    k: int,
)
    requires
        before.wf(),
        join_outcome(before, after, token, name, r),
        r is Ok,
        name.len() > 0,
        0 <= k < after.players@.len(),
        k != r->Ok_0,
        after.players@[k] is Some,
    ensures
        after.players@[r->Ok_0 as int]->0.name@ == name,
        after.players@[k]->0.name@ != name,
{
    let i = r->Ok_0 as int;
    assert(after.players@[k] == before.players@[k]);
    if before.players@[k]->0.name@ == name {
        if before.players@[k]->0.token == token {
            assert(held_by(before.players@, token, k));
            assert(held_by(before.players@, token, i));
            if k < i {
                assert(before.players@[k]->0.token != before.players@[i]->0.token);
            } else {
                assert(before.players@[i]->0.token != before.players@[k]->0.token);
            }
        }
        assert(name_taken(before.players@, token, name));
    }
}

/// A finished match takes nobody new, and says that rather than that it is
/// full.
pub proof fn lemma_a_finished_match_takes_nobody_new(
    before: &Game,
    after: &Game,
    token: u64,
    name: Seq<char>,
    r: Result<u8, DenyReason>,
)
    requires
        join_outcome(before, after, token, name, r),
        before.status == GameStatus::Finished,
        forall|i: int| !held_by(before.players@, token, i),
        !name_taken(before.players@, token, name),
    ensures
        r == Err::<u8, DenyReason>(DenyReason::MatchFinished),
{
}

/// With every slot taken, a stranger is told the server is full.
pub proof fn lemma_a_full_match_takes_nobody_new(
    before: &Game,
    after: &Game,
    token: u64,
    name: Seq<char>,
    r: Result<u8, DenyReason>,
)
    requires
        join_outcome(before, after, token, name, r),
        before.status != GameStatus::Finished,
        forall|i: int| !held_by(before.players@, token, i),
        !name_taken(before.players@, token, name),
        forall|i: int| 0 <= i < before.players@.len() ==> (#[trigger] before.players@[i]) is Some,
    ensures
        r == Err::<u8, DenyReason>(DenyReason::ServerFull),
{
}

/// A restart keeps who everybody is and the count of ticks, and drops what
/// anybody earned.
pub proof fn lemma_a_restart_keeps_the_players(
    before: &Game,
    after: &Game,
    seed: u64,
    by: u8,
    ore: Vec<OreDeposit>,
    hills: Vec<Hill>,
    i: int,
)
    requires
        before.wf(),
        restart_outcome(before, after, seed, by, ore, hills),
        0 <= i < before.players@.len(),
    ensures
        after.tick == before.tick,
        after.cheats == before.cheats,
        after.joined == before.joined,
        after.winner is None,
        after.status != GameStatus::Finished,
        after.players@[i] is Some <==> before.players@[i] is Some,
        before.players@[i] is Some ==> {
            let p = before.players@[i]->0;
            let q = after.players@[i]->0;
            &&& q.id == p.id && q.token == p.token && q.name == p.name
            &&& q.connected == p.connected
            &&& q.credits == before.rules.starting_credits
            &&& q.powerups == before.rules.starting_powerups
            &&& q.ore_mined == 0 && q.captures == 0
            &&& q.tank is Some && q.miner is Some && q.plane is None
            &&& !q.eliminated
        },
{
}

/// A frame older than one already acted on is ignored.
pub proof fn lemma_a_stale_frame_is_ignored(
    before: &Game,
    after: &Game,
    id: u8,
    frame: InputFrame,
)
    requires
        input_outcome(before, after, id, frame),
        before.player_spec(id) is Some,
        frame.tick < before.player_spec(id)->0.acked_input,
    ensures
        after.players@ == before.players@,
{
}

/// What has been acted on only ever moves forward.
pub proof fn lemma_acknowledged_input_never_goes_back(
    before: &Game,
    after: &Game,
    id: u8,
    frame: InputFrame,
)
    requires
        input_outcome(before, after, id, frame),
        before.player_spec(id) is Some,
    ensures
        after.player_spec(id) is Some,
        after.player_spec(id)->0.acked_input >= before.player_spec(id)->0.acked_input,
{
}

/// A player who has just joined can drive, whatever their client numbers its
/// first frame.
pub proof fn lemma_a_resumed_player_can_drive(
    before: &Game,
    joined: &Game,
    after: &Game,
    token: u64,
    name: Seq<char>,
    r: Result<u8, DenyReason>,
    frame: InputFrame,
)
    requires
        before.wf(),
        joined.wf(),
        join_outcome(before, joined, token, name, r),
        r is Ok,
        input_outcome(joined, after, r->Ok_0, frame),
    ensures
        after.player_spec(r->Ok_0) is Some,
        after.player_spec(r->Ok_0)->0.input == frame,
        after.player_spec(r->Ok_0)->0.acked_input == frame.tick,
{
}

/// A purchase that goes through costs exactly its price, and one that does not
/// costs nothing.
pub proof fn lemma_a_purchase_costs_its_price(
    before: &Game,
    after: &Game,
    id: u8,
    powerup: PowerUp,
    tank_holds: Capacity,
    miner_holds: Capacity,
)
    requires
        purchase_outcome(before, after, id, powerup, tank_holds, miner_holds),
        before.player_spec(id) is Some,
    ensures
        ({
            let p = before.player_spec(id)->0;
            let cost = asking_price(&before.rules, before.cheats, powerup);
            match purchase_refusal(p, cost, powerup) {
                Some(_) => after.players@ == before.players@,
                None => after.player_spec(id) is Some && after.player_spec(id)->0.credits
                    == p.credits - cost,
            }
        }),
{
}

/// What is not consumable is bought once: asking again is turned down.
pub proof fn lemma_an_upgrade_is_bought_once(
    rules: &Rules,
    p: Player,
    cost: u32,
    powerup: PowerUp,
    tank_holds: Capacity,
    miner_holds: Capacity,
    again: u32,
)
    requires
        purchase_refusal(p, cost, powerup) is None,
        !powerup.is_consumable_spec(),
    ensures
        purchase_refusal(
            purchased(rules, p, cost, powerup, tank_holds, miner_holds),
            again,
            powerup,
        ) == Some(RejectReason::AlreadyOwned),
{
    lemma_held_after_buying(p.powerups, powerup, powerup);
}

/// Missile packs stack, as long as they can be paid for.
pub proof fn lemma_missile_packs_stack(
    rules: &Rules,
    p: Player,
    cost: u32,
    tank_holds: Capacity,
    miner_holds: Capacity,
)
    requires
        purchase_refusal(p, cost, PowerUp::MissilePack) is None,
        p.credits >= 2 * cost,
        p.missiles + 2 * rules.missiles_per_pack <= u8::MAX,
    ensures
        ({
            let once = purchased(rules, p, cost, PowerUp::MissilePack, tank_holds, miner_holds);
            let twice = purchased(
                rules,
                once,
                cost,
                PowerUp::MissilePack,
                tank_holds,
                miner_holds,
            );
            &&& purchase_refusal(once, cost, PowerUp::MissilePack) is None
            &&& twice.missiles == p.missiles + 2 * rules.missiles_per_pack
            &&& twice.credits == p.credits - 2 * cost
        }),
{
}

/// With cheats on, everything on the list is free.
pub proof fn lemma_cheats_make_the_list_free(rules: &Rules, p: Player, powerup: PowerUp)
    requires
        !p.eliminated,
        !powerup.held_spec(p.powerups),
    ensures
        asking_price(rules, true, powerup) == 0,
        purchase_refusal(p, asking_price(rules, true, powerup), powerup) is None,
{
}

/// A sortie needs the upgrade, one at a time, and a wait between them.
pub proof fn lemma_a_sortie_is_gated(before: &Game, after: &Game, id: u8, holds: Capacity)
    requires
        before.wf(),
        launch_outcome(before, after, id, holds),
        before.player_spec(id) is Some,
    ensures
        ({
            let p = before.player_spec(id)->0;
            &&& !PowerUp::Bomber.held_spec(p.powerups) || p.plane is Some || p.sortie_cooldown > 0
                || p.eliminated ==> after.players@ == before.players@
            &&& can_launch(p) ==> after.player_spec(id)->0.plane is Some
        }),
{
}

/// Who is on the field decides a match; who is connected does not.
pub proof fn lemma_a_disconnect_wins_nothing(before: &Game, after: &Game, id: u8)
    requires
        before.wf(),
        disconnect_outcome(before, after, id),
    ensures
        victor(after.players@) == victor(before.players@),
        after.status == before.status,
        after.winner == before.winner,
{
    lemma_connection_is_not_presence(before.players@, after.players@);
}

proof fn lemma_connection_is_not_presence(a: Seq<Option<Player>>, b: Seq<Option<Player>>)
    requires
        a.len() == b.len(),
        forall|i: int|
            #![trigger a[i]]
            #![trigger b[i]]
            0 <= i < a.len() ==> (a[i] is Some <==> b[i] is Some) && (a[i] is Some ==> a[i]->0.id
                == b[i]->0.id && a[i]->0.eliminated == b[i]->0.eliminated && a[i]->0.captures
                == b[i]->0.captures),
    ensures
        standing_ids(a) == standing_ids(b),
        leader_ids(a) == leader_ids(b),
    decreases a.len(),
{
    if a.len() > 0 {
        assert forall|i: int|
            #![trigger a.drop_last()[i]]
            #![trigger b.drop_last()[i]]
            0 <= i < a.drop_last().len() implies (a.drop_last()[i] is Some
            <==> b.drop_last()[i] is Some) && (a.drop_last()[i] is Some
            ==> a.drop_last()[i]->0.id == b.drop_last()[i]->0.id && a.drop_last()[i]->0.eliminated
            == b.drop_last()[i]->0.eliminated && a.drop_last()[i]->0.captures
            == b.drop_last()[i]->0.captures) by {
            assert(a[i] == a.drop_last()[i]);
            assert(b[i] == b.drop_last()[i]);
        }
        lemma_connection_is_not_presence(a.drop_last(), b.drop_last());
        assert(a[a.len() - 1] == a.last());
        assert(b[b.len() - 1] == b.last());
    }
}

/// The last player on the field has won.
pub proof fn lemma_the_last_one_standing_wins(players: Seq<Option<Player>>, i: int)
    requires
        0 <= i < players.len(),
        players[i] is Some,
        !players[i]->0.eliminated,
        forall|k: int|
            0 <= k < players.len() && k != i && (#[trigger] players[k]) is Some
                ==> players[k]->0.eliminated,
    ensures
        standing_ids(players) == seq![players[i]->0.id],
        victor(players) == Some(players[i]->0.id),
    decreases players.len(),
{
    let shorter = players.drop_last();
    if i == players.len() - 1 {
        lemma_nobody_standing(shorter);
        assert(players.last() == players[i]);
    } else {
        assert(players[players.len() - 1] == players.last());
        assert(shorter[i] == players[i]);
        assert forall|k: int|
            #![trigger shorter[k]]
            0 <= k < shorter.len() && k != i && shorter[k] is Some implies shorter[k]->0.eliminated by {
            assert(shorter[k] == players[k]);
        }
        lemma_the_last_one_standing_wins(shorter, i);
    }
    assert(standing_ids(players) =~= seq![players[i]->0.id]);
}

proof fn lemma_nobody_standing(players: Seq<Option<Player>>)
    requires
        forall|k: int|
            0 <= k < players.len() && (#[trigger] players[k]) is Some
                ==> players[k]->0.eliminated,
    ensures
        standing_ids(players).len() == 0,
    decreases players.len(),
{
    if players.len() > 0 {
        let shorter = players.drop_last();
        assert forall|k: int|
            #![trigger shorter[k]]
            0 <= k < shorter.len() && shorter[k] is Some implies shorter[k]->0.eliminated by {
            assert(shorter[k] == players[k]);
        }
        lemma_nobody_standing(shorter);
        assert(players[players.len() - 1] == players.last());
    }
}

/// Taking the last opponent's miner wins the match.
pub proof fn lemma_capturing_the_last_opponent_wins(
    players: Seq<Option<Player>>,
    taking: Taking,
    spoils: u32,
)
    requires
        taking.by != taking.from,
        (taking.by as int) < players.len(),
        (taking.from as int) < players.len(),
        players[taking.by as int] is Some,
        players[taking.by as int]->0.id == taking.by,
        !players[taking.by as int]->0.eliminated,
        players[taking.from as int] is Some,
        forall|k: int|
            0 <= k < players.len() && k != taking.by && k != taking.from && (
            #[trigger] players[k]) is Some ==> players[k]->0.eliminated,
    ensures
        victor(
            with_slot(
                with_slot(players, taking.from, |p: Player| captured(p)),
                taking.by,
                |p: Player| enriched(p, spoils),
            ),
        ) == Some(taking.by),
{
    let after = with_slot(
        with_slot(players, taking.from, |p: Player| captured(p)),
        taking.by,
        |p: Player| enriched(p, spoils),
    );
    assert forall|k: int|
        #![trigger after[k]]
        0 <= k < after.len() && k != taking.by && after[k] is Some implies after[k]->0.eliminated by {
        if k != taking.from {
            assert(after[k] == players[k]);
        }
    }
    lemma_the_last_one_standing_wins(after, taking.by as int);
}

/// With several still on the field, the first to three captures has won.
pub proof fn lemma_three_captures_win(players: Seq<Option<Player>>, i: int)
    requires
        0 <= i < players.len(),
        players[i] is Some,
        players[i]->0.captures >= CAPTURES_TO_WIN,
        forall|k: int|
            0 <= k < i && (#[trigger] players[k]) is Some ==> players[k]->0.captures
                < CAPTURES_TO_WIN,
        standing_ids(players).len() != 1,
    ensures
        victor(players) == Some(players[i]->0.id),
{
    lemma_first_leader(players, i);
}

proof fn lemma_first_leader(players: Seq<Option<Player>>, i: int)
    requires
        0 <= i < players.len(),
        players[i] is Some,
        players[i]->0.captures >= CAPTURES_TO_WIN,
        forall|k: int|
            0 <= k < i && (#[trigger] players[k]) is Some ==> players[k]->0.captures
                < CAPTURES_TO_WIN,
    ensures
        leader_ids(players).len() > 0,
        leader_ids(players)[0] == players[i]->0.id,
    decreases players.len(),
{
    let shorter = players.drop_last();
    if i == players.len() - 1 {
        lemma_no_leader(shorter);
        assert(players.last() == players[i]);
    } else {
        assert(shorter[i] == players[i]);
        assert forall|k: int|
            #![trigger shorter[k]]
            0 <= k < i && shorter[k] is Some implies shorter[k]->0.captures < CAPTURES_TO_WIN by {
            assert(shorter[k] == players[k]);
        }
        lemma_first_leader(shorter, i);
    }
}

proof fn lemma_no_leader(players: Seq<Option<Player>>)
    requires
        forall|k: int|
            0 <= k < players.len() && (#[trigger] players[k]) is Some ==> players[k]->0.captures
                < CAPTURES_TO_WIN,
    ensures
        leader_ids(players).len() == 0,
    decreases players.len(),
{
    if players.len() > 0 {
        let shorter = players.drop_last();
        assert forall|k: int|
            #![trigger shorter[k]]
            0 <= k < shorter.len() && shorter[k] is Some implies shorter[k]->0.captures
            < CAPTURES_TO_WIN by {
            assert(shorter[k] == players[k]);
        }
        lemma_no_leader(shorter);
        assert(players[players.len() - 1] == players.last());
    }
}

/// A match that has not begun, or that nobody else has ever been in, is won by
/// nobody.
pub proof fn lemma_a_lone_player_wins_nothing(before: &Game, after: &Game)
    requires
        victory_outcome(before, after),
        before.status != GameStatus::Running || before.joined < 2,
    ensures
        after.status == before.status,
        after.winner == before.winner,
        after.events@ == before.events@,
{
}

/// An emplacement with two or more attackers in reach does not fire twice
/// running at the same one.
pub proof fn lemma_a_sentinel_shares_its_fire(
    rules: &Rules,
    owner: u8,
    targets: Seq<Target>,
    w: &Watch,
    cursor: usize,
)
    requires
        cursor < usize::MAX,
        in_reach(rules, owner, targets, w.ranges@, targets.len()).len() >= 2,
    ensures
        engaged(rules, owner, targets, w, cursor) is Some,
        engaged(rules, owner, targets, w, advanced(cursor)) is Some,
        engaged(rules, owner, targets, w, cursor) != engaged(
            rules,
            owner,
            targets,
            w,
            advanced(cursor),
        ),
{
    let reach = in_reach(rules, owner, targets, w.ranges@, targets.len());
    lemma_reach_is_in_order(rules, owner, targets, w.ranges@, targets.len());
    let n = reach.len() as int;
    let a = cursor as int % n;
    let b = (cursor as int + 1) % n;
    assert(0 <= a < n && 0 <= b < n && a != b) by (nonlinear_arith)
        requires
            n >= 2,
            a == cursor as int % n,
            b == (cursor as int + 1) % n,
    {
        vstd::arithmetic::div_mod::lemma_fundamental_div_mod(cursor as int, n);
        vstd::arithmetic::div_mod::lemma_fundamental_div_mod(cursor as int + 1, n);
        vstd::arithmetic::div_mod::lemma_mod_bound(cursor as int, n);
        vstd::arithmetic::div_mod::lemma_mod_bound(cursor as int + 1, n);
        if a == b {
            let qa = cursor as int / n;
            let qb = (cursor as int + 1) / n;
            assert(n * (qb - qa) == 1);
            assert(qb - qa >= 1 ==> n * (qb - qa) >= 2);
            assert(qb - qa <= 0 ==> n * (qb - qa) <= 0);
        }
    }
    if a < b {
        assert(reach[a] < reach[b]);
    } else {
        assert(reach[b] < reach[a]);
    }
}

proof fn lemma_reach_is_in_order(
    rules: &Rules,
    owner: u8,
    targets: Seq<Target>,
    ranges: Seq<Real>,
    n: nat,
)
    ensures
        forall|a: int, b: int|
            0 <= a < b < in_reach(rules, owner, targets, ranges, n).len() ==> (
            #[trigger] in_reach(rules, owner, targets, ranges, n)[a]) < (#[trigger] in_reach(
                rules,
                owner,
                targets,
                ranges,
                n,
            )[b]),
        forall|a: int|
            0 <= a < in_reach(rules, owner, targets, ranges, n).len() ==> (#[trigger] in_reach(
                rules,
                owner,
                targets,
                ranges,
                n,
            )[a]) < n,
    decreases n,
{
    if n > 0 {
        lemma_reach_is_in_order(rules, owner, targets, ranges, (n - 1) as nat);
        let before = in_reach(rules, owner, targets, ranges, (n - 1) as nat);
        let now = in_reach(rules, owner, targets, ranges, n);
        let k = n - 1;
        assert(now == before + crate::measure::listed_if(
            targets[k].player != owner && targets[k].what != Hittable::Sentinel && ranges[k]
                <= rules.sentinel_range,
            k,
        ));
        assert forall|a: int| 0 <= a < now.len() implies #[trigger] now[a] < n by {
            if a < before.len() {
                assert(now[a] == before[a]);
            }
        }
        assert forall|a: int, b: int| 0 <= a < b < now.len() implies #[trigger] now[a]
            < #[trigger] now[b] by {
            assert(now[a] == before[a]);
            if b < before.len() {
                assert(now[b] == before[b]);
            }
        }
    }
}

/// An emplacement is friendly to its owner, and does not shoot at other
/// emplacements.
pub proof fn lemma_a_sentinel_engages_enemies(
    rules: &Rules,
    owner: u8,
    targets: Seq<Target>,
    ranges: Seq<Real>,
    n: nat,
)
    requires
        n <= targets.len(),
    ensures
        forall|a: int|
            0 <= a < in_reach(rules, owner, targets, ranges, n).len() ==> {
                let k = #[trigger] in_reach(rules, owner, targets, ranges, n)[a];
                &&& 0 <= k < n
                &&& targets[k].player != owner
                &&& targets[k].what != Hittable::Sentinel
                &&& ranges[k] <= rules.sentinel_range
            },
    decreases n,
{
    if n > 0 {
        lemma_a_sentinel_engages_enemies(rules, owner, targets, ranges, (n - 1) as nat);
    }
}

/// A hill in front of everything a shell would run into is cover.
pub proof fn lemma_a_hill_in_front_is_cover(
    rules: &Rules,
    targets: Seq<Target>,
    p: Projectile,
    f: &Flight,
)
    requires
        p.kind == ProjectileKind::Bullet || p.kind == ProjectileKind::Missile,
        f.life > 0,
        f.hill is Some,
        f.meetings@.len() == targets.len(),
        forall|k: int|
            0 <= k < targets.len() && (#[trigger] f.meetings@[k]).at is Some ==> f.hill->0
                < f.meetings@[k].at->0,
    ensures
        fate_of(rules, targets, p, f) == Fate::Covered,
{
    let keys = contact_keys(rules, p.owner, targets, f.meetings@);
    let first = crate::measure::least_of(keys);
    if first is Some {
        let k = first->0;
        assert(crate::measure::is_first_least(keys, k));
        assert(f.meetings@[k].at is Some);
    }
}

/// Hills are cover from everything else in the game and nothing at all to a
/// bomb: it falls until it lands.
pub proof fn lemma_a_bomb_falls_until_it_lands(
    rules: &Rules,
    targets: Seq<Target>,
    p: Projectile,
    f: &Flight,
)
    requires
        p.kind == ProjectileKind::Bomb,
    ensures
        fate_of(rules, targets, p, f) == if f.life <= 0 {
            Fate::Landed
        } else {
            Fate::Flying
        },
{
}

/// Buying an upgrade gives that one, and gives or takes no other.
pub proof fn lemma_buying_gives_only_that(
    rules: &Rules,
    p: Player,
    cost: u32,
    powerup: PowerUp,
    tank_holds: Capacity,
    miner_holds: Capacity,
    other: PowerUp,
)
    requires
        other != powerup || powerup.is_consumable_spec(),
    ensures
        other.held_spec(purchased(rules, p, cost, powerup, tank_holds, miner_holds).powerups)
            == other.held_spec(p.powerups),
{
    lemma_held_after_buying(p.powerups, powerup, other);
}

} // verus!
