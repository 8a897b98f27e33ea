//! Mining and unloading.
//!
//! Park a miner on a deposit and it draws ore; drive it home and the ore turns
//! into credits.

use vstd::prelude::*;

use crate::game::{Game, OreDeposit};
use crate::measure::{first_least, least_of, lemma_least, same_index, Real};
use crate::player::{Player, Vehicle};
use crate::rules::Rules;

verus! {

broadcast use vstd::std_specs::hash::group_hash_axioms;

/// Each deposit a miner could draw from: one with anything left in it, within
/// reach, by how far off it is.
pub open spec fn site_keys(rules: &Rules, ore: Seq<OreDeposit>, distances: Seq<Real>) -> Seq<
    Option<Real>,
> {
    Seq::new(
        ore.len(),
        |i: int|
            if ore[i].amount > 0 && distances[i] <= rules.mining_radius {
                Some(distances[i])
            } else {
                None
            },
    )
}

/// Whether a player has a miner that works.
pub open spec fn has_working_miner(p: Player) -> bool {
    !p.eliminated && p.miner is Some && !p.miner->0.disabled
}

/// Whether a player's miner has something to put down where it stands.
pub open spec fn can_unload(p: Player, at_base: bool) -> bool {
    has_working_miner(p) && p.miner->0.cargo > 0 && at_base
}

/// What a deposit is left with once some of it was drawn: never more than there
/// was, and never less than nothing.
pub open spec fn drawn_down(was: Real, left: Real) -> Real {
    if left > was {
        was
    } else if left < 0 {
        0
    } else {
        left
    }
}

/// What a miner has aboard once it has loaded: never less than it had, and
/// never more than it holds.
pub open spec fn loaded(was: Real, capacity: Real, cargo: Real) -> Real {
    if cargo <= was || capacity <= was {
        was
    } else if cargo > capacity {
        capacity
    } else {
        cargo
    }
}

/// What moving a tick's worth of ore from a deposit into a miner does to a
/// match.
pub open spec fn mine_outcome(
    before: &Game,
    after: &Game,
    player: u8,
    site: int,
    capacity: Real,
    left: Real,
    cargo: Real,
) -> bool {
    &&& *after == Game {
        players: after.players,
        ore: after.ore,
        dirty_ore: after.dirty_ore,
        ..*before
    }
    &&& match before.player_spec(player) {
        Some(p) if has_working_miner(p) => {
            let m = p.miner->0;
            let deposit = before.ore@[site];
            &&& after.players@ =~= before.players@.update(
                player as int,
                Some(
                    Player {
                        miner: Some(Vehicle { cargo: loaded(m.cargo, capacity, cargo), ..m }),
                        ..p
                    },
                ),
            )
            &&& after.ore@ =~= before.ore@.update(
                site,
                OreDeposit { amount: drawn_down(deposit.amount, left), ..deposit },
            )
            &&& after.dirty_ore@ =~= before.dirty_ore@.insert(site as u16)
        },
        _ => {
            &&& after.players@ =~= before.players@
            &&& after.ore@ =~= before.ore@
            &&& after.dirty_ore@ =~= before.dirty_ore@
        },
    }
}

/// What unloading a miner does to a match.
pub open spec fn unload_outcome(
    before: &Game,
    after: &Game,
    player: u8,
    at_base: bool,
    whole: u32,
    cargo: Real,
) -> bool {
    &&& *after == Game { players: after.players, ..*before }
    &&& match before.player_spec(player) {
        Some(p) if can_unload(p, at_base) => after.players@ =~= before.players@.update(
            player as int,
            Some(
                Player {
                    miner: Some(
                        Vehicle { cargo: drawn_down(p.miner->0.cargo, cargo), ..p.miner->0 },
                    ),
                    credits: (p.credits + whole) as u32,
                    ore_mined: (p.ore_mined + whole) as u32,
                    ..p
                },
            ),
        ),
        _ => after.players@ =~= before.players@,
    }
}

impl Game {
    /// The deposit a player's miner draws from.
    pub open spec fn site(&self, player: u8, capacity: Real, pace: Real, distances: Seq<Real>) -> Option<
        int,
    > {
        match self.player_spec(player) {
            Some(p) if has_working_miner(p) && p.miner->0.cargo < capacity && pace
                <= self.rules.mining_max_speed => least_of(
                site_keys(&self.rules, self.ore@, distances),
            ),
            _ => None,
        }
    }

    /// The deposit a player's miner draws from this tick, if it draws at all:
    /// the nearest in reach, and only with room aboard and nearly stopped.
    pub fn mining_site(&self, player: u8, capacity: Real, pace: Real, distances: &Vec<Real>) -> (r:
        Option<usize>)
        requires
            distances@.len() == self.ore@.len(),
        ensures
            ({
                let able = self.player_spec(player) is Some && !self.player_spec(player)->0.eliminated
                    && self.player_spec(player)->0.miner is Some && !self.player_spec(
                    player,
                )->0.miner->0.disabled && self.player_spec(player)->0.miner->0.cargo < capacity && pace
                    <= self.rules.mining_max_speed;
                match r {
                    Some(i) => {
                        &&& able
                        &&& i < self.ore@.len()
                        &&& self.ore@[i as int].amount > 0
                        &&& distances@[i as int] <= self.rules.mining_radius
                        &&& forall|k: int|
                            0 <= k < self.ore@.len() && (#[trigger] self.ore@[k]).amount > 0
                                ==> distances@[i as int] <= distances@[k]
                    },
                    None => !able || forall|k: int|
                        0 <= k < self.ore@.len() ==> (#[trigger] self.ore@[k]).amount <= 0
                            || distances@[k] > self.rules.mining_radius,
                }
            }),
            same_index(r, self.site(player, capacity, pace, distances@)),
            r is Some ==> r->0 < self.ore@.len() && self.ore@[r->0 as int].amount > 0,
    {
        match self.player(player) {
            None => None,
            Some(p) => match &p.miner {
                None => None,
                Some(m) => {
                    if p.eliminated || m.disabled || m.cargo >= capacity || pace
                        > self.rules.mining_max_speed {
                        return None;
                    }
                    let mut keys: Vec<Option<Real>> = Vec::new();
                    let mut k: usize = 0;
                    while k < self.ore.len()
                        invariant
                            k <= self.ore@.len(),
                            distances@.len() == self.ore@.len(),
                            keys@ =~= site_keys(&self.rules, self.ore@, distances@).take(k as int),
                        decreases self.ore.len() - k,
                    {
                        if self.ore[k].amount > 0 && distances[k] <= self.rules.mining_radius {
                            keys.push(Some(distances[k]));
                        } else {
                            keys.push(None);
                        }
                        k = k + 1;
                    }
                    assert(keys@ =~= site_keys(&self.rules, self.ore@, distances@));
                    proof {
                        lemma_a_miner_draws_from_the_nearest(&self.rules, self.ore@, distances@);
                    }
                    first_least(&keys)
                },
            },
        }
    }

    /// Moves a tick's worth of ore from a deposit into a miner. `left` is what
    /// the deposit has afterwards and `cargo` what the miner has aboard, of the
    /// `capacity` it holds.
    pub fn mine(&mut self, player: u8, site: usize, capacity: Real, left: Real, cargo: Real)
        requires
            old(self).wf(),
            site < old(self).ore@.len(),
        ensures
            final(self).ore@.len() == old(self).ore@.len(),
            forall|k: int|
                0 <= k < old(self).ore@.len() && k != site ==> #[trigger] final(self).ore@[k] == old(
                    self,
                ).ore@[k],
            match old(self).player_spec(player) {
                Some(p) if !p.eliminated && p.miner is Some && !p.miner->0.disabled => {
                    let was = p.miner->0.cargo;
                    let is = final(self).players@[player as int]->0.miner->0;
                    let (ground, rest) = (old(self).ore@[site as int], final(self).ore@[site as int]);
                    &&& is == Vehicle { cargo: is.cargo, ..p.miner->0 }
                    &&& was <= cargo <= capacity ==> is.cargo == cargo
                    &&& was <= capacity < cargo ==> is.cargo == capacity
                    &&& cargo <= was || capacity <= was ==> is.cargo == was
                    &&& rest.pos == ground.pos && rest.capacity == ground.capacity
                    &&& 0 <= left <= ground.amount ==> rest.amount == left
                    &&& left > ground.amount ==> rest.amount == ground.amount
                    &&& left < 0 && left <= ground.amount ==> rest.amount == 0
                    &&& final(self).dirty_ore@.contains(site as u16)
                },
                _ => {
                    &&& final(self).players@ =~= old(self).players@
                    &&& final(self).ore@ =~= old(self).ore@
                    &&& final(self).dirty_ore@ =~= old(self).dirty_ore@
                },
            },
            final(self).wf(),
            mine_outcome(old(self), final(self), player, site as int, capacity, left, cargo),
    {
        let mut drawn: bool = false;
        if let Some(p) = self.player_mut(player) {
            if !p.eliminated {
                if let Some(m) = p.miner.as_mut() {
                    if !m.disabled {
                        if cargo > m.cargo && capacity > m.cargo {
                            m.cargo = if cargo > capacity {
                                capacity
                            } else {
                                cargo
                            };
                        }
                        drawn = true;
                    }
                }
            }
        }
        if drawn {
            let mut deposit = self.ore[site];
            if left <= deposit.amount {
                deposit.amount = if left < 0 {
                    0
                } else {
                    left
                };
            }
            self.ore[site] = deposit;
            self.dirty_ore.insert(site as u16);
        }
    }

    /// Unloads a miner standing on its own pad. Credits are whole units: `whole`
    /// is how many came off this tick, and `cargo` what stays aboard, the
    /// fraction with it rather than evaporating.
    pub fn unload(&mut self, player: u8, at_base: bool, whole: u32, cargo: Real)
        requires
            old(self).wf(),
            match old(self).player_spec(player) {
                Some(p) if can_unload(p, at_base) => p.credits + whole <= u32::MAX && p.ore_mined
                    + whole <= u32::MAX,
                _ => true,
            },
        ensures
            final(self).ore == old(self).ore && final(self).dirty_ore == old(self).dirty_ore,
            match old(self).player_spec(player) {
                Some(p) if !p.eliminated && p.miner is Some && !p.miner->0.disabled && p.miner->0.cargo > 0
                    && at_base => {
                    let q = final(self).players@[player as int]->0;
                    &&& q.credits == p.credits + whole
                    &&& q.ore_mined == p.ore_mined + whole
                    &&& q.miner is Some
                    &&& q.miner->0 == Vehicle { cargo: q.miner->0.cargo, ..p.miner->0 }
                    &&& 0 <= cargo <= p.miner->0.cargo ==> q.miner->0.cargo == cargo
                    &&& cargo > p.miner->0.cargo ==> q.miner->0.cargo == p.miner->0.cargo
                    &&& cargo < 0 ==> q.miner->0.cargo == 0
                },
                _ => final(self).players@ =~= old(self).players@,
            },
            final(self).wf(),
            unload_outcome(old(self), final(self), player, at_base, whole, cargo),
    {
        if let Some(p) = self.player_mut(player) {
            if at_base && !p.eliminated {
                if let Some(m) = p.miner.as_mut() {
                    if !m.disabled && m.cargo > 0 {
                        if cargo <= m.cargo {
                            m.cargo = if cargo < 0 {
                                0
                            } else {
                                cargo
                            };
                        }
                        p.credits = p.credits + whole;
                        p.ore_mined = p.ore_mined + whole;
                    }
                }
            }
        }
    }
}

/// Whether no deposit holds less than nothing.
pub open spec fn ore_sound(ore: Seq<OreDeposit>) -> bool {
    forall|k: int| 0 <= k < ore.len() ==> (#[trigger] ore[k]).amount >= 0
}

/// Whether no deposit has grown, moved or been made to hold more.
pub open spec fn no_deposit_grew(before: Seq<OreDeposit>, after: Seq<OreDeposit>) -> bool {
    &&& after.len() == before.len()
    &&& forall|k: int|
        0 <= k < before.len() ==> {
            let is = #[trigger] after[k];
            &&& is == OreDeposit { amount: is.amount, ..before[k] }
            &&& is.amount <= before[k].amount
        }
}

/// Mining takes from the ground and puts aboard: no deposit grows or goes below
/// nothing, nothing aboard is lost, and no more is aboard than the hold takes.
pub proof fn lemma_mining_only_draws(
    before: &Game,
    after: &Game,
    player: u8,
    site: int,
    capacity: Real,
    left: Real,
    cargo: Real,
)
    requires
        mine_outcome(before, after, player, site, capacity, left, cargo),
        0 <= site < before.ore@.len(),
        ore_sound(before.ore@),
    ensures
        ore_sound(after.ore@),
        no_deposit_grew(before.ore@, after.ore@),
        match before.player_spec(player) {
            Some(p) => {
                let q = after.player_spec(player)->0;
                &&& after.player_spec(player) is Some
                &&& q == Player { miner: q.miner, ..p }
                &&& has_working_miner(p) ==> {
                    let (was, is) = (p.miner->0.cargo, q.miner->0.cargo);
                    was <= is && (is <= was || is <= capacity)
                }
                &&& !has_working_miner(p) ==> q == p && after.ore@ == before.ore@
            },
            None => after.players@ == before.players@ && after.ore@ == before.ore@,
        },
{
}

/// Unloading takes from the hold and pays into the bank: what is banked is also
/// what counts as mined, and the hold neither gains nor goes below nothing.
pub proof fn lemma_unloading_only_pays(
    before: &Game,
    after: &Game,
    player: u8,
    at_base: bool,
    whole: u32,
    cargo: Real,
)
    requires
        unload_outcome(before, after, player, at_base, whole, cargo),
        before.player_spec(player) is Some,
        can_unload(before.player_spec(player)->0, at_base) ==> before.player_spec(
            player,
        )->0.credits + whole <= u32::MAX && before.player_spec(player)->0.ore_mined + whole
            <= u32::MAX,
    ensures
        after.player_spec(player) is Some,
        after.ore@ == before.ore@,
        ({
            let (p, q) = (before.player_spec(player)->0, after.player_spec(player)->0);
            &&& q.credits - p.credits == q.ore_mined - p.ore_mined
            &&& q.credits >= p.credits
            &&& can_unload(p, at_base) ==> {
                &&& q.credits - p.credits == whole
                &&& 0 <= q.miner->0.cargo <= p.miner->0.cargo
            }
            &&& !can_unload(p, at_base) ==> q == p
        }),
{
}

/// A moving miner cannot mine.
pub proof fn lemma_a_moving_miner_cannot_mine(
    g: &Game,
    player: u8,
    capacity: Real,
    pace: Real,
    distances: Seq<Real>,
)
    requires
        pace > g.rules.mining_max_speed,
    ensures
        g.site(player, capacity, pace, distances) is None,
{
}

/// A miner draws from the nearest deposit in its reach that has anything left,
/// and from none only when there is none.
pub proof fn lemma_a_miner_draws_from_the_nearest(
    rules: &Rules,
    ore: Seq<OreDeposit>,
    distances: Seq<Real>,
)
    requires
        distances.len() == ore.len(),
    ensures
        match least_of(site_keys(rules, ore, distances)) {
            Some(i) => {
                &&& 0 <= i < ore.len()
                &&& ore[i].amount > 0
                &&& distances[i] <= rules.mining_radius
                &&& forall|k: int|
                    0 <= k < ore.len() && (#[trigger] ore[k]).amount > 0 ==> distances[i]
                        <= distances[k]
            },
            None => forall|k: int|
                0 <= k < ore.len() ==> (#[trigger] ore[k]).amount <= 0 || distances[k]
                    > rules.mining_radius,
        },
{
    let keys = site_keys(rules, ore, distances);
    lemma_least(keys);
    assert forall|k: int|
        0 <= k < ore.len() && (#[trigger] ore[k]).amount > 0 && distances[k]
            <= rules.mining_radius implies keys[k] == Some(distances[k]) by {}
}

/// A tick of mining and a tick of unloading move what they are given to move:
/// what is drawn is aboard, what is banked is off the hold, and the deposit drawn
/// from is told of.
pub proof fn lemma_ore_goes_where_it_is_sent(
    before: &Game,
    after: &Game,
    player: u8,
    site: int,
    capacity: Real,
    left: Real,
    cargo: Real,
)
    requires
        mine_outcome(before, after, player, site, capacity, left, cargo),
        before.player_spec(player) is Some,
        !before.player_spec(player)->0.eliminated,
        before.player_spec(player)->0.miner is Some,
        !before.player_spec(player)->0.miner->0.disabled,
        0 <= site < before.ore@.len() <= 0x1_0000,
        0 <= left <= before.ore@[site].amount,
        before.player_spec(player)->0.miner->0.cargo <= cargo <= capacity,
    ensures
        after.ore@[site].amount == left,
        after.player_spec(player)->0.miner->0.cargo == cargo,
        after.dirty_ore@.contains(site as u16),
        after.player_spec(player)->0.credits == before.player_spec(player)->0.credits,
{
}

/// A wreck, an empty slot and anybody who is out of the match neither mine nor
/// bank anything; a miner that works does both.
pub proof fn lemma_only_a_working_miner_works(
    before: &Game,
    mined: &Game,
    banked: &Game,
    player: u8,
    site: int,
    capacity: Real,
    left: Real,
    cargo: Real,
    whole: u32,
)
    requires
        mine_outcome(before, mined, player, site, capacity, left, cargo),
        unload_outcome(before, banked, player, true, whole, cargo),
        0 <= site < before.ore@.len(),
        before.player_spec(player) is Some,
        before.player_spec(player)->0.credits + whole <= u32::MAX,
        before.player_spec(player)->0.ore_mined + whole <= u32::MAX,
    ensures
        ({
            let p = before.player_spec(player)->0;
            let idle = p.eliminated || p.miner is None || p.miner->0.disabled;
            &&& idle ==> mined.players@ =~= before.players@ && mined.ore@ =~= before.ore@
            &&& idle ==> banked.players@ =~= before.players@
            &&& !idle && p.miner->0.cargo < cargo <= capacity ==> mined.player_spec(
                player,
            )->0.miner->0.cargo == cargo
            &&& !idle && 0 <= left <= before.ore@[site].amount ==> mined.ore@[site].amount == left
            &&& !idle && p.miner->0.cargo > 0 ==> banked.player_spec(player)->0.credits == p.credits
                + whole
        }),
{
}

} // verus!
