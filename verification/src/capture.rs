//! Taking a disabled miner, or getting it back.

use vstd::prelude::*;

use crate::game::{Game, Projectile};
use crate::measure::{
    gathered, lemma_gathered_from, lemma_gathered_holds, listed_if, Real, ONE,
};
use crate::player::{Player, Vehicle};
use crate::protocol::{GameEvent, MAX_PLAYERS};
use crate::rules::{Rules, CAPTURE_LOCKOUT, SORTIE_COOLDOWN};

verus! {

/// A wreck's tick: who is near it, and what its gauges would read.
#[derive(Debug)]
pub struct Wreck {
    /// How far each slot's tank is from it.
    pub ranges: Vec<Real>,
    /// The hull with a tick of repair on it, up to what it holds.
    pub repaired: Real,
    /// The hull at which it comes back online.
    pub revives_at: Real,
    /// The capture progress with a tick of rescue off it, with a tick of
    /// capture on it, and with a tick of neglect off it.
    pub eased: Real,
    pub pressed: Real,
    pub faded: Real,
}

/// Who is standing over a wreck.
#[derive(Clone, Copy, Debug, PartialEq, Eq, Structural)]
pub enum Standoff {
    /// Both sides. The defender denies the capture, but repairing under the
    /// guns of the tank parked on top of it is not something they get for free:
    /// progress holds where it is, and whoever gives up the ground first decides
    /// how this ends.
    Contested,
    /// The owner's tank alone, which patches it up.
    Rescue,
    /// Somebody else's tank alone.
    Capture(u8),
    /// Nobody; progress decays so a partial attempt does not linger.
    Deserted,
}

/// A capture that has run its course.
#[derive(Clone, Copy, Debug, PartialEq, Eq, Structural)]
pub struct Taking {
    pub by: u8,
    pub from: u8,
}

/// Whether the tank in slot `k` is standing over a wreck.
pub open spec fn stands_over(
    rules: &Rules,
    players: Seq<Option<Player>>,
    ranges: Seq<Real>,
    k: int,
) -> bool {
    &&& 0 <= k < players.len()
    &&& players[k] is Some
    &&& !players[k]->0.eliminated
    &&& players[k]->0.tank is Some
    &&& ranges[k] <= rules.capture_radius
}

/// Whether slot `k` is the first of somebody else's tanks over a wreck.
pub open spec fn is_captor(
    rules: &Rules,
    players: Seq<Option<Player>>,
    ranges: Seq<Real>,
    owner: u8,
    k: int,
) -> bool {
    &&& k != owner
    &&& stands_over(rules, players, ranges, k)
    &&& forall|j: int| 0 <= j < k && j != owner ==> !stands_over(rules, players, ranges, j)
}

/// Who is standing over a wreck.
pub open spec fn standoff_of(
    rules: &Rules,
    players: Seq<Option<Player>>,
    ranges: Seq<Real>,
    owner: u8,
) -> Standoff {
    let defended = stands_over(rules, players, ranges, owner as int);
    let pressed = exists|k: int| is_captor(rules, players, ranges, owner, k);
    if defended && pressed {
        Standoff::Contested
    } else if defended {
        Standoff::Rescue
    } else if pressed {
        Standoff::Capture((choose|k: int| is_captor(rules, players, ranges, owner, k)) as u8)
    } else {
        Standoff::Deserted
    }
}

/// Only one tank is the first over a wreck.
pub proof fn lemma_one_captor(
    rules: &Rules,
    players: Seq<Option<Player>>,
    ranges: Seq<Real>,
    owner: u8,
    a: int,
    b: int,
)
    requires
        is_captor(rules, players, ranges, owner, a),
        is_captor(rules, players, ranges, owner, b),
    ensures
        a == b,
{
}

/// A wreck once a tick of standing over it is over.
pub open spec fn wreck_after(m: Vehicle, w: &Wreck, s: Standoff) -> Vehicle {
    match s {
        Standoff::Contested => m,
        Standoff::Rescue => if w.repaired >= w.revives_at {
            Vehicle {
                hull: w.repaired,
                disabled: false,
                capture_progress: 0,
                shield: 0,
                since_damage: 0,
                ..m
            }
        } else {
            Vehicle { hull: w.repaired, capture_progress: w.eased, ..m }
        },
        Standoff::Capture(_) => Vehicle { capture_progress: w.pressed, ..m },
        Standoff::Deserted => Vehicle { capture_progress: w.faded, ..m },
    }
}

/// Whether a player has a wreck on the field.
pub open spec fn has_wreck(p: Player) -> bool {
    !p.eliminated && p.miner is Some && p.miner->0.disabled
}

/// The players once every wreck has been seen to.
pub open spec fn players_after_standoffs(
    rules: &Rules,
    players: Seq<Option<Player>>,
    wrecks: Seq<Wreck>,
) -> Seq<Option<Player>> {
    Seq::new(
        players.len(),
        |i: int|
            match players[i] {
                Some(p) if has_wreck(p) => Some(
                    Player {
                        miner: Some(
                            wreck_after(
                                p.miner->0,
                                &wrecks[i],
                                standoff_of(rules, players, wrecks[i].ranges@, p.id),
                            ),
                        ),
                        ..p
                    },
                ),
                other => other,
            },
    )
}

/// Whether the miner in a slot comes back online.
pub open spec fn is_rescued(
    rules: &Rules,
    players: Seq<Option<Player>>,
    wrecks: Seq<Wreck>,
    i: int,
) -> bool {
    players[i] is Some && has_wreck(players[i]->0) && standoff_of(
        rules,
        players,
        wrecks[i].ranges@,
        players[i]->0.id,
    ) is Rescue && wrecks[i].repaired >= wrecks[i].revives_at
}

/// The rescues, in slot order.
pub open spec fn rescues(
    rules: &Rules,
    players: Seq<Option<Player>>,
    wrecks: Seq<Wreck>,
    n: nat,
) -> Seq<GameEvent> {
    gathered(
        n,
        |i: int|
            listed_if(
                is_rescued(rules, players, wrecks, i),
                GameEvent::MinerRescued { player: players[i]->0.id },
            ),
    )
}

/// Whether the miner in a slot is taken.
pub open spec fn is_taken(
    rules: &Rules,
    players: Seq<Option<Player>>,
    wrecks: Seq<Wreck>,
    i: int,
) -> bool {
    players[i] is Some && has_wreck(players[i]->0) && standoff_of(
        rules,
        players,
        wrecks[i].ranges@,
        players[i]->0.id,
    ) is Capture && wrecks[i].pressed >= ONE
}

/// The captures that have run their course, in slot order.
pub open spec fn takings(
    rules: &Rules,
    players: Seq<Option<Player>>,
    wrecks: Seq<Wreck>,
    n: nat,
) -> Seq<Taking> {
    gathered(
        n,
        |i: int|
            listed_if(
                is_taken(rules, players, wrecks, i),
                Taking {
                    by: standoff_of(
                        rules,
                        players,
                        wrecks[i].ranges@,
                        players[i]->0.id,
                    )->Capture_0,
                    from: players[i]->0.id,
                },
            ),
    )
}

/// What a captor gets off the wreck: what was aboard, in whole units.
pub open spec fn spoils_of(victim: Option<Player>, aboard: u32) -> u32 {
    match victim {
        Some(p) if p.miner is Some => aboard,
        _ => 0,
    }
}

/// A player whose miner has been taken. A player with no miner has nothing left
/// to defend, so their tank leaves the field with it, and anything in the air.
/// They are off the field rather than out of the match.
pub open spec fn captured(p: Player) -> Player {
    Player {
        miner: None,
        tank: None,
        plane: None,
        sortie_cooldown: SORTIE_COOLDOWN,
        eliminated: true,
        down_for: CAPTURE_LOCKOUT,
        respawn_timer: 0,
        ..p
    }
}

/// A player who has taken a miner.
pub open spec fn enriched(p: Player, spoils: u32) -> Player {
    Player {
        captures: if p.captures < u8::MAX {
            (p.captures + 1) as u8
        } else {
            u8::MAX
        },
        credits: (p.credits + spoils) as u32,
        ore_mined: (p.ore_mined + spoils) as u32,
        ..p
    }
}

/// One slot changed, if anybody is in it.
pub open spec fn with_slot(
    players: Seq<Option<Player>>,
    id: u8,
    f: spec_fn(Player) -> Player,
) -> Seq<Option<Player>> {
    if (id as int) < players.len() && players[id as int] is Some {
        players.update(id as int, Some(f(players[id as int]->0)))
    } else {
        players
    }
}

/// The projectiles that are not `owner`'s.
pub open spec fn not_fired_by(shells: Seq<Projectile>, owner: u8, n: nat) -> Seq<Projectile> {
    gathered(n, |i: int| listed_if(shells[i].owner != owner, shells[i]))
}

/// What a tick of standing over wrecks does to a match.
pub open spec fn standoffs_outcome(before: &Game, after: &Game, wrecks: Seq<Wreck>) -> bool {
    &&& *after == Game { players: after.players, events: after.events, ..*before }
    &&& after.players@ =~= players_after_standoffs(&before.rules, before.players@, wrecks)
    &&& after.events@ =~= before.events@ + rescues(
        &before.rules,
        before.players@,
        wrecks,
        wrecks.len(),
    )
}

/// What a capture does to a match.
pub open spec fn taking_outcome(before: &Game, after: &Game, taking: Taking, aboard: u32) -> bool {
    let spoils = spoils_of(before.player_spec(taking.from), aboard);
    &&& *after == Game {
        players: after.players,
        events: after.events,
        projectiles: after.projectiles,
        ..*before
    }
    &&& after.players@ =~= with_slot(
        with_slot(before.players@, taking.from, |p: Player| captured(p)),
        taking.by,
        |p: Player| enriched(p, spoils),
    )
    &&& after.events@ =~= before.events@.push(
        GameEvent::MinerCaptured { by: taking.by, from: taking.from },
    ) + listed_if(
        spoils > 0,
        GameEvent::OreSeized { by: taking.by, from: taking.from, amount: spoils },
    ) + seq![GameEvent::PlayerEliminated { player: taking.from }]
    &&& after.projectiles@ =~= not_fired_by(
        before.projectiles@,
        taking.from,
        before.projectiles@.len(),
    )
}

impl Game {
    fn stands(&self, ranges: &Vec<Real>, k: usize) -> (r: bool)
        requires
            ranges@.len() == self.players@.len(),
            k < self.players@.len(),
        ensures
            r <==> {
                &&& self.players@[k as int] is Some
                &&& !self.players@[k as int]->0.eliminated
                &&& self.players@[k as int]->0.tank is Some
                &&& ranges@[k as int] <= self.rules.capture_radius
            },
            r == stands_over(&self.rules, self.players@, ranges@, k as int),
    {
        match &self.players[k] {
            Some(p) => !p.eliminated && p.tank.is_some() && ranges[k] <= self.rules.capture_radius,
            None => false,
        }
    }

    /// Who is standing over `owner`'s wreck.
    pub fn standoff(&self, ranges: &Vec<Real>, owner: u8) -> (r: Standoff)
        requires
            self.wf(),
            owner < MAX_PLAYERS,
            ranges@.len() == self.players@.len(),
        ensures
            r == Standoff::Contested || r == Standoff::Rescue <==> stands_over(
                &self.rules,
                self.players@,
                ranges@,
                owner as int,
            ),
            r == Standoff::Deserted || r == Standoff::Rescue ==> forall|k: int|
                0 <= k < self.players@.len() && k != owner ==> !stands_over(
                    &self.rules,
                    self.players@,
                    ranges@,
                    k,
                ),
            r == Standoff::Contested ==> exists|k: int|
                0 <= k < self.players@.len() && k != owner && stands_over(
                    &self.rules,
                    self.players@,
                    ranges@,
                    k,
                ),
            r is Capture ==> {
                &&& r->Capture_0 != owner
                &&& stands_over(&self.rules, self.players@, ranges@, r->Capture_0 as int)
                &&& forall|k: int|
                    0 <= k < r->Capture_0 && k != owner ==> !stands_over(
                        &self.rules,
                        self.players@,
                        ranges@,
                        k,
                    )
            },
            r == standoff_of(&self.rules, self.players@, ranges@, owner),
    {
        let mut captor: Option<usize> = None;
        let mut k: usize = 0;
        while k < self.players.len()
            invariant
                self.wf(),
                k <= self.players@.len(),
                ranges@.len() == self.players@.len(),
                match captor {
                    Some(c) => c < k && is_captor(
                        &self.rules,
                        self.players@,
                        ranges@,
                        owner,
                        c as int,
                    ),
                    None => forall|j: int|
                        0 <= j < k && j != owner ==> !stands_over(
                            &self.rules,
                            self.players@,
                            ranges@,
                            j,
                        ),
                },
            decreases self.players.len() - k,
        {
            if k != owner as usize && captor.is_none() && self.stands(ranges, k) {
                captor = Some(k);
            }
            k = k + 1;
        }
        proof {
            if let Some(c) = captor {
                let chosen = choose|j: int| is_captor(&self.rules, self.players@, ranges@, owner, j);
                lemma_one_captor(
                    &self.rules,
                    self.players@,
                    ranges@,
                    owner,
                    c as int,
                    chosen,
                );
            }
        }
        match (self.stands(ranges, owner as usize), captor) {
            (true, Some(_)) => Standoff::Contested,
            (true, None) => Standoff::Rescue,
            (false, Some(by)) => Standoff::Capture(by as u8),
            (false, None) => Standoff::Deserted,
        }
    }

    /// Sees to every wreck for one tick, and says which captures have run their
    /// course. Each of those is then applied with [`Game::apply_capture`].
    pub fn step_capture(&mut self, wrecks: &Vec<Wreck>) -> (r: Vec<Taking>)
        requires
            old(self).wf(),
            wrecks@.len() == old(self).players@.len(),
            forall|i: int|
                0 <= i < wrecks@.len() ==> (#[trigger] wrecks@[i]).ranges@.len() == old(
                    self,
                ).players@.len(),
        ensures
            forall|i: int|
                0 <= i < old(self).players@.len() && old(self).players@[i] is Some ==> {
                    let (p, q) = (old(self).players@[i]->0, (#[trigger] final(self).players@[i])->0);
                    &&& final(self).players@[i] is Some
                    &&& q == Player { miner: q.miner, ..p }
                    &&& p.eliminated || p.miner is None || !p.miner->0.disabled ==> q == p
                    &&& !p.eliminated && p.miner is Some && p.miner->0.disabled ==> q.miner is Some
                        && q.miner->0.cargo == p.miner->0.cargo && q.miner->0.mv == p.miner->0.mv
                },
            final(self).wf(),
            standoffs_outcome(old(self), final(self), wrecks@),
            r@ == takings(&old(self).rules, old(self).players@, wrecks@, wrecks@.len()),
    {
        // Read for everybody first: who stands where does not change while the
        // wrecks are seen to.
        let mut standoffs: Vec<Standoff> = Vec::new();
        let mut k: usize = 0;
        while k < self.players.len()
            invariant
                *self == *old(self),
                self.wf(),
                k <= self.players@.len(),
                wrecks@.len() == self.players@.len(),
                forall|i: int|
                    0 <= i < wrecks@.len() ==> (#[trigger] wrecks@[i]).ranges@.len()
                        == self.players@.len(),
                standoffs@.len() == k,
                forall|i: int|
                    0 <= i < k ==> #[trigger] standoffs@[i] == standoff_of(
                        &self.rules,
                        self.players@,
                        wrecks@[i].ranges@,
                        i as u8,
                    ),
            decreases self.players.len() - k,
        {
            assert(wrecks@[k as int].ranges@.len() == self.players@.len());
            let s = self.standoff(&wrecks[k].ranges, k as u8);
            standoffs.push(s);
            k = k + 1;
        }

        let mut taken: Vec<Taking> = Vec::new();
        let ghost after = players_after_standoffs(&self.rules, self.players@, wrecks@);
        let mut i: usize = 0;
        while i < self.players.len()
            invariant
                i <= self.players@.len(),
                old(self).wf(),
                self.players@.len() == old(self).players@.len(),
                wrecks@.len() == old(self).players@.len(),
                standoffs@.len() == old(self).players@.len(),
                forall|k: int|
                    0 <= k < standoffs@.len() ==> #[trigger] standoffs@[k] == standoff_of(
                        &old(self).rules,
                        old(self).players@,
                        wrecks@[k].ranges@,
                        k as u8,
                    ),
                after == players_after_standoffs(&old(self).rules, old(self).players@, wrecks@),
                *self == (Game { players: self.players, events: self.events, ..*old(self) }),
                forall|k: int| 0 <= k < i ==> #[trigger] self.players@[k] == after[k],
                forall|k: int|
                    i <= k < self.players@.len() ==> #[trigger] self.players@[k] == old(
                        self,
                    ).players@[k],
                self.events@ =~= old(self).events@ + rescues(
                    &old(self).rules,
                    old(self).players@,
                    wrecks@,
                    i as nat,
                ),
                taken@ == takings(&old(self).rules, old(self).players@, wrecks@, i as nat),
            decreases self.players.len() - i,
        {
            let w = &wrecks[i];
            let s = standoffs[i];
            let mut rescued: Option<u8> = None;
            if let Some(p) = self.players[i].as_mut() {
                let owner: u8 = p.id;
                if !p.eliminated {
                    if let Some(m) = p.miner.as_mut() {
                        if m.disabled {
                            match s {
                                Standoff::Contested => {},
                                Standoff::Rescue => {
                                    m.hull = w.repaired;
                                    m.capture_progress = w.eased;
                                    if m.hull >= w.revives_at {
                                        m.disabled = false;
                                        m.capture_progress = 0;
                                        m.shield = 0;
                                        m.since_damage = 0;
                                        rescued = Some(owner);
                                    }
                                },
                                Standoff::Capture(by) => {
                                    m.capture_progress = w.pressed;
                                    if m.capture_progress >= ONE {
                                        taken.push(Taking { by, from: owner });
                                    }
                                },
                                Standoff::Deserted => {
                                    m.capture_progress = w.faded;
                                },
                            }
                        }
                    }
                }
            }
            if let Some(player) = rescued {
                self.events.push(GameEvent::MinerRescued { player });
            }
            i = i + 1;
        }
        taken
    }

    /// Hands a miner to whoever took it. `aboard` is the whole units of ore in
    /// it, matching how a miner unloads at its own pad; the fraction is lost
    /// with the hull rather than rounded up.
    pub fn apply_capture(&mut self, taking: Taking, aboard: u32)
        requires
            old(self).wf(),
            ({
                let spoils = spoils_of(old(self).player_spec(taking.from), aboard);
                match old(self).player_spec(taking.by) {
                    Some(p) => p.credits + spoils <= u32::MAX && p.ore_mined + spoils <= u32::MAX,
                    None => true,
                }
            }),
        ensures
            forall|k: int|
                0 <= k < old(self).players@.len() && k != taking.by && k != taking.from
                    ==> #[trigger] final(self).players@[k] == old(self).players@[k],
            forall|k: int|
                0 <= k < final(self).projectiles@.len() ==> (#[trigger] final(self).projectiles@[k]).owner
                    != taking.from && old(self).projectiles@.contains(final(self).projectiles@[k]),
            forall|k: int|
                0 <= k < old(self).projectiles@.len() && (#[trigger] old(self).projectiles@[k]).owner
                    != taking.from ==> final(self).projectiles@.contains(old(self).projectiles@[k]),
            final(self).wf(),
            taking_outcome(old(self), final(self), taking, aboard),
    {
        let by: u8 = taking.by;
        let from: u8 = taking.from;
        let mut spoils: u32 = 0;
        if let Some(victim) = self.player_mut(from) {
            if victim.miner.is_some() {
                spoils = aboard;
            }
            victim.miner = None;
            victim.tank = None;
            victim.plane = None;
            victim.sortie_cooldown = SORTIE_COOLDOWN;
            victim.eliminated = true;
            victim.down_for = CAPTURE_LOCKOUT;
            victim.respawn_timer = 0;
        }
        if let Some(captor) = self.player_mut(by) {
            captor.captures = captor.captures.saturating_add(1);
            captor.credits = captor.credits + spoils;
            captor.ore_mined = captor.ore_mined + spoils;
        }
        self.events.push(GameEvent::MinerCaptured { by, from });
        // Only worth saying when there was something aboard.
        if spoils > 0 {
            self.events.push(GameEvent::OreSeized { by, from, amount: spoils });
        }
        self.events.push(GameEvent::PlayerEliminated { player: from });

        // Anything still in the air belonged to a fight that is now over.
        let mut kept: Vec<Projectile> = Vec::new();
        let mut i: usize = 0;
        while i < self.projectiles.len()
            invariant
                i <= self.projectiles@.len(),
                self.projectiles@ == old(self).projectiles@,
                kept@ == not_fired_by(old(self).projectiles@, from, i as nat),
            decreases self.projectiles.len() - i,
        {
            let shell = self.projectiles[i];
            if shell.owner != from {
                kept.push(shell);
            }
            i = i + 1;
        }
        self.projectiles = kept;
        proof {
            lemma_only_the_losers_shots_go(old(self).projectiles@, from);
        }
    }
}

/// A contested wreck is neither taken nor repaired.
pub proof fn lemma_a_contested_wreck_holds(
    rules: &Rules,
    players: Seq<Option<Player>>,
    wrecks: Seq<Wreck>,
    i: int,
)
    requires
        0 <= i < players.len(),
        players[i] is Some,
        players[i]->0.id == i,
        stands_over(rules, players, wrecks[i].ranges@, i),
        exists|k: int| is_captor(rules, players, wrecks[i].ranges@, players[i]->0.id, k),
    ensures
        players_after_standoffs(rules, players, wrecks)[i] == players[i],
        !is_rescued(rules, players, wrecks, i),
        !is_taken(rules, players, wrecks, i),
{
}

/// Whoever takes a miner takes all that was aboard it, and the loser is off the
/// field with nothing left on it.
pub proof fn lemma_a_capture_moves_the_ore(
    players: Seq<Option<Player>>,
    taking: Taking,
    aboard: u32,
)
    requires
        taking.by != taking.from,
        (taking.by as int) < players.len(),
        (taking.from as int) < players.len(),
        players[taking.by as int] is Some,
        players[taking.from as int] is Some,
        players[taking.from as int]->0.miner is Some,
        players[taking.by as int]->0.credits + aboard <= u32::MAX,
    ensures
        ({
            let spoils = spoils_of(players[taking.from as int], aboard);
            let after = with_slot(
                with_slot(players, taking.from, |p: Player| captured(p)),
                taking.by,
                |p: Player| enriched(p, spoils),
            );
            &&& after[taking.by as int]->0.credits == players[taking.by as int]->0.credits + aboard
            &&& after[taking.from as int]->0.eliminated
            &&& after[taking.from as int]->0.tank is None
            &&& after[taking.from as int]->0.miner is None
            &&& after[taking.from as int]->0.plane is None
            &&& after[taking.from as int]->0.powerups == players[taking.from as int]->0.powerups
        }),
{
}

/// Only the loser's shots leave the air.
pub proof fn lemma_only_the_losers_shots_go(shells: Seq<Projectile>, owner: u8)
    ensures
        forall|k: int|
            0 <= k < not_fired_by(shells, owner, shells.len()).len() ==> (#[trigger] not_fired_by(
                shells,
                owner,
                shells.len(),
            )[k]).owner != owner && shells.contains(not_fired_by(shells, owner, shells.len())[k]),
        forall|k: int|
            0 <= k < shells.len() && (#[trigger] shells[k]).owner != owner ==> not_fired_by(
                shells,
                owner,
                shells.len(),
            ).contains(shells[k]),
{
    let n = shells.len();
    let f = |i: int| listed_if(shells[i].owner != owner, shells[i]);
    let kept = not_fired_by(shells, owner, n);
    assert(kept == gathered(n, f));
    assert forall|k: int| 0 <= k < kept.len() implies (#[trigger] kept[k]).owner != owner
        && shells.contains(kept[k]) by {
        assert(kept.contains(kept[k]));
        lemma_gathered_from(n, f, kept[k]);
        let i = choose|i: int| 0 <= i < n && (#[trigger] f(i)).contains(kept[k]);
        let own = f(i);
        let z = choose|z: int| 0 <= z < own.len() && own[z] == kept[k];
        assert(own[z] == shells[i]);
    }
    assert forall|k: int| 0 <= k < shells.len() && (#[trigger] shells[k]).owner
        != owner implies kept.contains(shells[k]) by {
        assert(f(k)[0] == shells[k]);
        lemma_gathered_holds(n, f, k, shells[k]);
    }
}

/// Whoever stands over a wreck decides what becomes of it, and of nothing else
/// about it: it stays where it is with what it carries.
pub proof fn lemma_a_wreck_goes_as_the_ground_does(m: Vehicle, w: &Wreck, s: Standoff)
    requires
        m.disabled,
    ensures
        ({
            let next = wreck_after(m, w, s);
            &&& next.mv == m.mv && next.cargo == m.cargo && next.turret_yaw == m.turret_yaw
            &&& next.gun_cooldown == m.gun_cooldown && next.missile_cooldown == m.missile_cooldown
            &&& next.fuel == m.fuel
            &&& s is Contested ==> next == m
            &&& s is Rescue ==> next.hull == w.repaired
            &&& s !is Rescue ==> next.hull == m.hull && next.shield == m.shield
            &&& !next.disabled <==> s is Rescue && w.repaired >= w.revives_at
            &&& !next.disabled ==> next.shield == 0 && next.capture_progress == 0 && next.since_damage == 0
            &&& next.disabled ==> next.shield == m.shield && next.since_damage == m.since_damage
            &&& next.disabled && s is Rescue ==> next.capture_progress == w.eased
            &&& s is Capture ==> next.capture_progress == w.pressed
            &&& s is Deserted ==> next.capture_progress == w.faded
        }),
{
}

/// A miner is taken by a tank standing over it that is not its owner's, while the
/// owner's is not, once the capture is complete; and by nobody otherwise.
pub proof fn lemma_who_takes_a_miner(
    rules: &Rules,
    players: Seq<Option<Player>>,
    wrecks: Seq<Wreck>,
    t: Taking,
)
    requires
        wrecks.len() == players.len(),
        players.len() <= 256,
        takings(rules, players, wrecks, wrecks.len()).contains(t),
    ensures
        t.by != t.from,
        exists|i: int|
            #![trigger players[i]]
            0 <= i < players.len() && players[i] is Some && players[i]->0.id == t.from
                && !players[i]->0.eliminated && players[i]->0.miner is Some
                && players[i]->0.miner->0.disabled && wrecks[i].pressed >= ONE && stands_over(
                rules,
                players,
                wrecks[i].ranges@,
                t.by as int,
            ) && !stands_over(rules, players, wrecks[i].ranges@, t.from as int),
{
    let n = wrecks.len();
    let f = |i: int|
        listed_if(
            is_taken(rules, players, wrecks, i),
            Taking {
                by: standoff_of(rules, players, wrecks[i].ranges@, players[i]->0.id)->Capture_0,
                from: players[i]->0.id,
            },
        );
    lemma_gathered_from(n, f, t);
    let i = choose|i: int| 0 <= i < n && (#[trigger] f(i)).contains(t);
    let own = f(i);
    let z = choose|z: int| 0 <= z < own.len() && own[z] == t;
    assert(own[z] == t);
    let (owner, ranges) = (players[i]->0.id, wrecks[i].ranges@);
    let k = choose|k: int| is_captor(rules, players, ranges, owner, k);
    assert(is_captor(rules, players, ranges, owner, k));
    assert(t.by == k);
}

/// A capture that has run its course is never forgotten, and neither is a
/// rescue.
pub proof fn lemma_a_finished_standoff_is_told(
    rules: &Rules,
    players: Seq<Option<Player>>,
    wrecks: Seq<Wreck>,
    i: int,
)
    requires
        wrecks.len() == players.len(),
        0 <= i < players.len(),
        players[i] is Some,
        !players[i]->0.eliminated,
        players[i]->0.miner is Some,
        players[i]->0.miner->0.disabled,
    ensures
        standoff_of(rules, players, wrecks[i].ranges@, players[i]->0.id) is Capture
            && wrecks[i].pressed >= ONE ==> takings(
            rules,
            players,
            wrecks,
            wrecks.len(),
        ).contains(
            Taking {
                by: standoff_of(rules, players, wrecks[i].ranges@, players[i]->0.id)->Capture_0,
                from: players[i]->0.id,
            },
        ),
        standoff_of(rules, players, wrecks[i].ranges@, players[i]->0.id) is Rescue
            && wrecks[i].repaired >= wrecks[i].revives_at ==> rescues(
            rules,
            players,
            wrecks,
            wrecks.len(),
        ).contains(GameEvent::MinerRescued { player: players[i]->0.id }),
{
    let n = wrecks.len();
    let f = |i: int|
        listed_if(
            is_taken(rules, players, wrecks, i),
            Taking {
                by: standoff_of(rules, players, wrecks[i].ranges@, players[i]->0.id)->Capture_0,
                from: players[i]->0.id,
            },
        );
    let g = |i: int|
        listed_if(
            is_rescued(rules, players, wrecks, i),
            GameEvent::MinerRescued { player: players[i]->0.id },
        );
    if is_taken(rules, players, wrecks, i) {
        assert(f(i).contains(f(i)[0]));
        lemma_gathered_holds(n, f, i, f(i)[0]);
    }
    if is_rescued(rules, players, wrecks, i) {
        assert(g(i).contains(g(i)[0]));
        lemma_gathered_holds(n, g, i, g(i)[0]);
    }
}

/// What a capture does to the two it is between: the captor is one capture and
/// all of the ore richer, and the loser is off the field for a minute, with
/// nothing on it and nothing of their bank, their upgrades or their record
/// touched.
pub proof fn lemma_a_capture_is_paid_for(
    before: &Game,
    after: &Game,
    taking: Taking,
    aboard: u32,
)
    requires
        taking_outcome(before, after, taking, aboard),
        taking.by != taking.from,
        before.player_spec(taking.by) is Some,
        before.player_spec(taking.from) is Some,
        before.player_spec(taking.from)->0.miner is Some,
        before.player_spec(taking.by)->0.credits + aboard <= u32::MAX,
        before.player_spec(taking.by)->0.ore_mined + aboard <= u32::MAX,
    ensures
        ({
            let (p, q) = (before.player_spec(taking.by)->0, after.player_spec(taking.by)->0);
            &&& q.credits == p.credits + aboard && q.ore_mined == p.ore_mined + aboard
            &&& p.captures < u8::MAX ==> q.captures == p.captures + 1
            &&& p.captures == u8::MAX ==> q.captures == u8::MAX
            &&& q == Player {
                captures: q.captures,
                credits: q.credits,
                ore_mined: q.ore_mined,
                ..p
            }
        }),
        ({
            let (p, q) = (before.player_spec(taking.from)->0, after.player_spec(taking.from)->0);
            &&& q.eliminated && q.down_for == CAPTURE_LOCKOUT
            &&& q.tank is None && q.miner is None && q.plane is None
            &&& q.sortie_cooldown == SORTIE_COOLDOWN && q.respawn_timer == 0
            &&& q.credits == p.credits && q.ore_mined == p.ore_mined && q.captures == p.captures
            &&& q.powerups == p.powerups && q.missiles == p.missiles && q.sentinel == p.sentinel
            &&& q.id == p.id && q.token == p.token && q.name == p.name && q.connected
                == p.connected
        }),
        after.events@.contains(GameEvent::MinerCaptured { by: taking.by, from: taking.from }),
        after.events@.contains(GameEvent::PlayerEliminated { player: taking.from }),
        aboard > 0 ==> after.events@.contains(
            GameEvent::OreSeized { by: taking.by, from: taking.from, amount: aboard },
        ),
        after.events@.len() == before.events@.len() + if aboard > 0 {
            3int
        } else {
            2int
        },
{
    let n = before.events@.len() as int;
    assert(after.events@[n] == GameEvent::MinerCaptured { by: taking.by, from: taking.from });
    assert(after.events@[after.events@.len() - 1] == GameEvent::PlayerEliminated {
        player: taking.from,
    });
    if aboard > 0 {
        assert(after.events@[n + 1] == GameEvent::OreSeized {
            by: taking.by,
            from: taking.from,
            amount: aboard,
        });
    }
}

/// There is nothing to seize from a wreck that is not there: a captor who finds
/// no miner gets the capture and no ore.
pub proof fn lemma_no_miner_no_spoils(before: &Game, after: &Game, taking: Taking, aboard: u32)
    requires
        taking_outcome(before, after, taking, aboard),
        taking.by != taking.from,
        before.player_spec(taking.by) is Some,
        before.player_spec(taking.from) is Some,
        before.player_spec(taking.from)->0.miner is None,
    ensures
        after.player_spec(taking.by)->0.credits == before.player_spec(taking.by)->0.credits,
        after.player_spec(taking.by)->0.ore_mined == before.player_spec(taking.by)->0.ore_mined,
        after.events@.len() == before.events@.len() + 2,
{
}

} // verus!
