//! What one player is sent of the match.
//!
//! Projectiles and impacts are ranked by distance from the viewer's own vehicle
//! and cut to a fixed budget, because bullets are dense and a far-off firefight
//! is not worth risking a fragmented packet over.

use vstd::prelude::*;

use crate::game::{Game, Projectile};
use crate::measure::{
    gathered, lemma_gathered_from, lemma_gathered_holds, listed_if, nearest_first, ranked_prefix,
    Real, Vec2,
};
use crate::player::{Dials, Player};
use crate::protocol::{HitFx, OreUpdate, PlayerSnapshot, ProjectileSnapshot, Snapshot};

verus! {

broadcast use vstd::std_specs::hash::group_hash_axioms;

/// The match as one viewer's snapshot measures it.
#[derive(Debug)]
pub struct Survey {
    /// How far each projectile is from the viewer, and its heading brought into
    /// range.
    pub shell_distances: Vec<Real>,
    pub shell_yaws: Vec<Real>,
    /// How far each impact is.
    pub hit_distances: Vec<Real>,
    /// What is left in each deposit, rounded.
    pub ore_amounts: Vec<u16>,
    /// One for each slot.
    pub dials: Vec<Dials>,
}

/// Which of a list are kept: all of it in order where it fits the budget, and
/// otherwise the nearest, nearest first.
pub open spec fn within_budget(keys: Seq<Real>, budget: usize, picked: Seq<usize>) -> bool {
    if keys.len() > budget {
        picked.len() == budget && ranked_prefix(keys, picked)
    } else {
        picked =~= Seq::new(keys.len(), |i: int| i as usize)
    }
}

/// Cuts a list to its budget.
pub fn keep_nearest(keys: &Vec<Real>, budget: usize) -> (picked: Vec<usize>)
    ensures
        picked@.len() == if keys@.len() < budget {
            keys@.len()
        } else {
            budget as nat
        },
        keys@.len() <= budget ==> forall|i: int| 0 <= i < picked@.len() ==> #[trigger] picked@[i] == i,
        forall|i: int, k: usize|
            0 <= i < picked@.len() && k < keys@.len() && !(#[trigger] picked@.contains(k))
                ==> keys@[(#[trigger] picked@[i]) as int] <= keys@[k as int],
        within_budget(keys@, budget, picked@),
        forall|i: int| 0 <= i < picked@.len() ==> #[trigger] picked@[i] < keys@.len(),
{
    if keys.len() > budget {
        return nearest_first(keys, budget);
    }
    let mut picked: Vec<usize> = Vec::new();
    let mut i: usize = 0;
    while i < keys.len()
        invariant
            i <= keys@.len(),
            picked@ =~= Seq::new(i as nat, |k: int| k as usize),
        decreases keys.len() - i,
    {
        picked.push(i);
        i = i + 1;
    }
    assert forall|k: usize| k < keys@.len() implies #[trigger] picked@.contains(k) by {
        assert(picked@[k as int] == k);
    }
    picked
}

pub open spec fn shell_snapshot(p: Projectile, yaw: Real) -> ProjectileSnapshot {
    ProjectileSnapshot { id: p.id, kind: p.kind, owner: p.owner, pos: p.pos, yaw, alt: p.alt }
}

/// Everybody's snapshot, in slot order.
pub open spec fn player_snapshots(players: Seq<Option<Player>>, dials: Seq<Dials>, n: nat) -> Seq<
    PlayerSnapshot,
> {
    gathered(
        n,
        |i: int|
            match players[i] {
                Some(p) => seq![p.snapshot_spec(dials[i])],
                None => Seq::empty(),
            },
    )
}

/// The deposits an update tells of: all of them, or the ones that changed.
pub open spec fn ore_updates(amounts: Seq<u16>, full: bool, dirty: Set<u16>, n: nat) -> Seq<
    OreUpdate,
> {
    gathered(
        n,
        |i: int|
            listed_if(
                full || dirty.contains(i as u16),
                OreUpdate { id: i as u16, amount: amounts[i] },
            ),
    )
}

/// The first of three that is there.
pub open spec fn first_of(a: Option<Vec2>, b: Option<Vec2>, c: Option<Vec2>) -> Option<Vec2> {
    if a is Some {
        a
    } else if b is Some {
        b
    } else {
        c
    }
}

/// Where a vehicle is, if it is there.
pub open spec fn place_of(v: Option<crate::player::Vehicle>) -> Option<Vec2> {
    match v {
        Some(v) => Some(v.mv.pos),
        None => None,
    }
}

impl Game {
    /// Where a viewer sees the field from: the vehicle being driven, or their
    /// tank, or their miner. A viewer with none of them sees it from the middle.
    pub fn eye(&self, viewer: u8) -> (r: Option<Vec2>)
        ensures
            match self.player_spec(viewer) {
                Some(p) => {
                    &&& p.vehicle_spec(p.input.controlling) is Some ==> r == Some(
                        p.vehicle_spec(p.input.controlling)->0.mv.pos,
                    )
                    &&& p.vehicle_spec(p.input.controlling) is None && p.tank is Some ==> r == Some(
                        p.tank->0.mv.pos,
                    )
                    &&& p.vehicle_spec(p.input.controlling) is None && p.tank is None && p.miner is Some
                        ==> r == Some(p.miner->0.mv.pos)
                    &&& p.tank is None && p.miner is None && p.plane is None ==> r is None
                },
                None => r is None,
            },
            r == match self.player_spec(viewer) {
                Some(p) => first_of(
                    place_of(p.vehicle_spec(p.input.controlling)),
                    place_of(p.tank),
                    place_of(p.miner),
                ),
                None => None,
            },
    {
        match self.player(viewer) {
            None => None,
            Some(p) => match p.vehicle(p.input.controlling) {
                Some(v) => Some(v.mv.pos),
                None => match &p.tank {
                    Some(v) => Some(v.mv.pos),
                    None => match &p.miner {
                        Some(v) => Some(v.mv.pos),
                        None => None,
                    },
                },
            },
        }
    }

    /// Where a viewer sees impacts from: their tank, or their miner. A viewer
    /// with neither sees them from the middle of the field.
    pub fn ground_eye(&self, viewer: u8) -> (r: Option<Vec2>)
        ensures
            match self.player_spec(viewer) {
                Some(p) => {
                    &&& p.tank is Some ==> r == Some(p.tank->0.mv.pos)
                    &&& p.tank is None && p.miner is Some ==> r == Some(p.miner->0.mv.pos)
                    &&& p.tank is None && p.miner is None ==> r is None
                },
                None => r is None,
            },
            r == match self.player_spec(viewer) {
                Some(p) => first_of(place_of(p.tank), place_of(p.miner), None),
                None => None,
            },
    {
        match self.player(viewer) {
            None => None,
            Some(p) => match &p.tank {
                Some(v) => Some(v.mv.pos),
                None => match &p.miner {
                    Some(v) => Some(v.mv.pos),
                    None => None,
                },
            },
        }
    }

    /// Whether a view measures all of the match.
    pub open spec fn covers_survey(&self, v: &Survey) -> bool {
        &&& v.shell_distances@.len() == self.projectiles@.len()
        &&& v.shell_yaws@.len() == self.projectiles@.len()
        &&& v.hit_distances@.len() == self.fx@.len()
        &&& v.ore_amounts@.len() == self.ore@.len()
        &&& v.dials@.len() == self.players@.len()
    }

    /// Builds the view of the world sent to one player.
    pub fn snapshot_for(&self, viewer: u8, full_ore: bool, v: &Survey) -> (r: Snapshot)
        requires
            self.wf(),
            self.covers_survey(v),
        ensures
            r.projectiles@.len() <= self.rules.projectile_budget,
            r.hits@.len() <= self.rules.hit_budget,
            self.projectiles@.len() <= self.rules.projectile_budget ==> r.projectiles@.len()
                == self.projectiles@.len(),
            self.fx@.len() <= self.rules.hit_budget ==> r.hits@ =~= self.fx@,
            forall|i: int|
                #![trigger r.projectiles@[i]]
                0 <= i < r.projectiles@.len() ==> exists|k: int|
                    #![trigger self.projectiles@[k]]
                    0 <= k < self.projectiles@.len() && {
                        let (s, p) = (r.projectiles@[i], self.projectiles@[k]);
                        &&& s.id == p.id && s.kind == p.kind && s.owner == p.owner
                        &&& s.pos == p.pos && s.alt == p.alt && s.yaw == v.shell_yaws@[k]
                        &&& self.projectiles@.len() <= self.rules.projectile_budget ==> k == i
                    },
            forall|i: int| 0 <= i < r.hits@.len() ==> self.fx@.contains(#[trigger] r.hits@[i]),
            r.tick == self.tick,
            r.status == self.status,
            r.winner == self.winner,
            r.cheats == self.cheats,
            r.ore_is_full_sync == full_ore,
            r.acked_input == match self.player_spec(viewer) {
                Some(p) => p.acked_input,
                None => 0,
            },
            r.players@ == player_snapshots(self.players@, v.dials@, v.dials@.len()),
            r.ore@ == ore_updates(
                v.ore_amounts@,
                full_ore,
                self.dirty_ore@,
                v.ore_amounts@.len(),
            ),
            exists|picked: Seq<usize>|
                {
                    &&& #[trigger] within_budget(
                        v.shell_distances@,
                        self.rules.projectile_budget,
                        picked,
                    )
                    &&& r.projectiles@ =~= Seq::new(
                        picked.len(),
                        |i: int|
                            shell_snapshot(
                                self.projectiles@[picked[i] as int],
                                v.shell_yaws@[picked[i] as int],
                            ),
                    )
                },
            exists|picked: Seq<usize>|
                {
                    &&& #[trigger] within_budget(
                        v.hit_distances@,
                        self.rules.hit_budget,
                        picked,
                    )
                    &&& r.hits@ =~= Seq::new(
                        picked.len(),
                        |i: int| self.fx@[picked[i] as int],
                    )
                },
    {
        let near = keep_nearest(&v.shell_distances, self.rules.projectile_budget);
        let mut projectiles: Vec<ProjectileSnapshot> = Vec::new();
        let mut i: usize = 0;
        while i < near.len()
            invariant
                self.covers_survey(v),
                i <= near@.len(),
                forall|k: int| 0 <= k < near@.len() ==> #[trigger] near@[k] < self.projectiles@.len(),
                projectiles@ =~= Seq::new(
                    i as nat,
                    |k: int|
                        shell_snapshot(
                            self.projectiles@[near@[k] as int],
                            v.shell_yaws@[near@[k] as int],
                        ),
                ),
            decreases near.len() - i,
        {
            let p = self.projectiles[near[i]];
            projectiles.push(
                ProjectileSnapshot {
                    id: p.id,
                    kind: p.kind,
                    owner: p.owner,
                    pos: p.pos,
                    yaw: v.shell_yaws[near[i]],
                    alt: p.alt,
                },
            );
            i = i + 1;
        }

        // Cosmetic and capped, so when more happens at once than fits, the
        // nearest impacts are the ones worth the bytes.
        let close = keep_nearest(&v.hit_distances, self.rules.hit_budget);
        let mut hits: Vec<HitFx> = Vec::new();
        let mut h: usize = 0;
        while h < close.len()
            invariant
                self.covers_survey(v),
                h <= close@.len(),
                forall|k: int| 0 <= k < close@.len() ==> #[trigger] close@[k] < self.fx@.len(),
                hits@ =~= Seq::new(h as nat, |k: int| self.fx@[close@[k] as int]),
            decreases close.len() - h,
        {
            hits.push(self.fx[close[h]]);
            h = h + 1;
        }

        let mut ore: Vec<OreUpdate> = Vec::new();
        let mut d: usize = 0;
        while d < v.ore_amounts.len()
            invariant
                self.wf(),
                self.covers_survey(v),
                d <= v.ore_amounts@.len(),
                ore@ == ore_updates(v.ore_amounts@, full_ore, self.dirty_ore@, d as nat),
            decreases v.ore_amounts.len() - d,
        {
            let id = d as u16;
            if full_ore || self.dirty_ore.contains(&id) {
                ore.push(OreUpdate { id, amount: v.ore_amounts[d] });
            }
            d = d + 1;
        }

        let mut players: Vec<PlayerSnapshot> = Vec::new();
        let mut s: usize = 0;
        while s < self.players.len()
            invariant
                self.covers_survey(v),
                s <= self.players@.len(),
                players@ == player_snapshots(self.players@, v.dials@, s as nat),
            decreases self.players.len() - s,
        {
            if let Some(p) = &self.players[s] {
                players.push(p.to_snapshot(v.dials[s]));
            }
            s = s + 1;
        }

        proof {
            assert(within_budget(v.shell_distances@, self.rules.projectile_budget, near@));
            assert(within_budget(v.hit_distances@, self.rules.hit_budget, close@));
            assert forall|i: int|
                #![trigger projectiles@[i]]
                0 <= i < projectiles@.len() implies exists|k: int|
                #![trigger self.projectiles@[k]]
                0 <= k < self.projectiles@.len() && {
                    let (s, p) = (projectiles@[i], self.projectiles@[k]);
                    &&& s.id == p.id && s.kind == p.kind && s.owner == p.owner
                    &&& s.pos == p.pos && s.alt == p.alt && s.yaw == v.shell_yaws@[k]
                    &&& self.projectiles@.len() <= self.rules.projectile_budget ==> k == i
                } by {
                let k = near@[i] as int;
                assert(self.projectiles@[k] == self.projectiles@[near@[i] as int]);
            }
            assert forall|i: int| 0 <= i < hits@.len() implies self.fx@.contains(
                #[trigger] hits@[i],
            ) by {
                assert(hits@[i] == self.fx@[close@[i] as int]);
            }
            if self.fx@.len() <= self.rules.hit_budget {
                assert(hits@ =~= self.fx@);
            }
        }
        Snapshot {
            tick: self.tick,
            status: self.status,
            winner: self.winner,
            acked_input: match self.player(viewer) {
                Some(p) => p.acked_input,
                None => 0,
            },
            players,
            projectiles,
            cheats: self.cheats,
            ore_is_full_sync: full_ore,
            ore,
            hits,
        }
    }
}

/// What is cut from a list is never nearer than what is kept, and no more is
/// kept than the budget.
pub proof fn lemma_the_nearest_are_kept(
    keys: Seq<Real>,
    budget: usize,
    picked: Seq<usize>,
    kept: int,
    cut: int,
)
    requires
        within_budget(keys, budget, picked),
        keys.len() <= usize::MAX,
        0 <= kept < picked.len(),
        0 <= cut < keys.len(),
        !picked.contains(cut as usize),
    ensures
        picked.len() <= budget,
        keys[picked[kept] as int] <= keys[cut],
{
    if keys.len() > budget {
        assert(crate::measure::ranks_before(keys, picked[kept] as int, cut));
    } else {
        assert(picked[cut] == cut as usize);
    }
}

/// Everybody in the match is in every snapshot, as they are.
pub proof fn lemma_everybody_is_sent(players: Seq<Option<Player>>, dials: Seq<Dials>, i: int)
    requires
        dials.len() == players.len(),
        0 <= i < players.len(),
        players[i] is Some,
    ensures
        player_snapshots(players, dials, dials.len()).contains(players[i]->0.snapshot_spec(dials[i])),
{
    let f = |i: int|
        match players[i] {
            Some(p) => seq![p.snapshot_spec(dials[i])],
            None => Seq::empty(),
        };
    assert(f(i)[0] == players[i]->0.snapshot_spec(dials[i]));
    lemma_gathered_holds(dials.len(), f, i, players[i]->0.snapshot_spec(dials[i]));
}

/// Whoever is in a snapshot is in the match.
pub proof fn lemma_whoever_is_sent_plays(
    players: Seq<Option<Player>>,
    dials: Seq<Dials>,
    s: PlayerSnapshot,
)
    requires
        dials.len() == players.len(),
        player_snapshots(players, dials, dials.len()).contains(s),
    ensures
        exists|i: int|
            #![trigger players[i]]
            0 <= i < players.len() && players[i] is Some && players[i]->0.id == s.id
                && players[i]->0.credits == s.credits,
{
    let f = |i: int|
        match players[i] {
            Some(p) => seq![p.snapshot_spec(dials[i])],
            None => Seq::empty(),
        };
    lemma_gathered_from(dials.len(), f, s);
    let i = choose|i: int| 0 <= i < dials.len() && (#[trigger] f(i)).contains(s);
    let own = f(i);
    let z = choose|z: int| 0 <= z < own.len() && own[z] == s;
    assert(own[z] == s);
    assert(players[i] is Some);
}

/// An update tells of a deposit exactly when it is a full one or that deposit
/// changed, and tells what is left in it.
pub proof fn lemma_a_changed_deposit_is_sent(
    amounts: Seq<u16>,
    full: bool,
    dirty: Set<u16>,
    i: int,
)
    requires
        amounts.len() <= 0x1_0000,
        0 <= i < amounts.len(),
    ensures
        full || dirty.contains(i as u16) ==> ore_updates(
            amounts,
            full,
            dirty,
            amounts.len(),
        ).contains(OreUpdate { id: i as u16, amount: amounts[i] }),
        forall|u: OreUpdate|
            #[trigger] ore_updates(amounts, full, dirty, amounts.len()).contains(u) && u.id == i
                ==> u.amount == amounts[i] && (full || dirty.contains(i as u16)),
{
    let n = amounts.len();
    let f = |i: int|
        listed_if(
            full || dirty.contains(i as u16),
            OreUpdate { id: i as u16, amount: amounts[i] },
        );
    if full || dirty.contains(i as u16) {
        let u = OreUpdate { id: i as u16, amount: amounts[i] };
        assert(f(i)[0] == u);
        lemma_gathered_holds(n, f, i, u);
    }
    assert forall|u: OreUpdate| #[trigger] ore_updates(amounts, full, dirty, n).contains(u) && u.id
        == i implies u.amount == amounts[i] && (full || dirty.contains(i as u16)) by {
        lemma_gathered_from(n, f, u);
        let k = choose|k: int| 0 <= k < n && (#[trigger] f(k)).contains(u);
        let own = f(k);
        let z = choose|z: int| 0 <= z < own.len() && own[z] == u;
        assert(own[z] == u);
        assert(u.id == k as u16 && k == i);
    }
}

} // verus!
