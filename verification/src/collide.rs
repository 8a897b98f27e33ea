//! Keeps hulls out of each other, and charges both for a hard meeting.
//!
//! Vehicles are circles that cannot share ground: anything that ends a tick
//! inside another hull is pushed back out along the line between the two, and
//! loses the speed it was carrying in. Meeting fast enough costs both sides
//! hull, so ramming is a real move with a real price rather than a way to park
//! inside somebody.

use vstd::prelude::*;

use crate::combat::{can_be_hurt, damage_outcome, shield_flash, wounded, Blow};
use crate::game::Game;
use crate::measure::{listed_if, MoveState, Real, Vec2, ONE};
use crate::player::{Player, Vehicle};
use crate::protocol::VehicleSlot;
use crate::rules::Rules;

verus! {

/// A hull on the ground.
#[derive(Clone, Copy, Debug, PartialEq, Eq, Structural)]
pub struct Body {
    pub player: u8,
    pub slot: VehicleSlot,
    pub pos: Vec2,
    pub radius: Real,
    /// What is left of the speed it carried in.
    pub speed_scale: Real,
    /// A wreck gives no ground.
    pub fixed: bool,
}

/// Two hulls inside each other.
#[derive(Clone, Copy, Debug, PartialEq, Eq, Structural)]
pub struct Contact {
    /// Where each ends up if it gives all of the ground.
    pub a_whole: Vec2,
    pub b_whole: Vec2,
    /// Where each ends up if it gives half of it.
    pub a_half: Vec2,
    pub b_half: Vec2,
    /// What each has left of its speed. Scaled by how head-on it was, so sliding
    /// along somebody costs nothing and running them down costs a lot.
    pub a_scale: Real,
    pub b_scale: Real,
    /// How fast the gap was shrinking.
    pub closing: Real,
    /// The face of each that met the other.
    pub a_face: Real,
    pub b_face: Real,
}

/// What one side owes for a meeting.
#[derive(Clone, Copy, Debug, PartialEq, Eq, Structural)]
pub struct Charge {
    pub player: u8,
    pub slot: VehicleSlot,
    /// The partner is named as the attacker, so running somebody down is a kill
    /// you get credit for.
    pub attacker: u8,
    pub bearing: Real,
}

/// A hard meeting of two players: both pay.
#[derive(Clone, Copy, Debug, PartialEq, Eq, Structural)]
pub struct Ram {
    pub a: Charge,
    pub b: Charge,
}

/// Two aircraft near each other.
#[derive(Clone, Copy, Debug, PartialEq, Eq, Structural)]
pub struct Brush {
    /// How much air is left between the two hulls, seen from above.
    pub clearance: Real,
    pub height_gap: Real,
}

pub open spec fn body_of(p: Player, slot: VehicleSlot, v: Option<Vehicle>, radius: Real) -> Seq<
    Body,
> {
    listed_if(
        v is Some,
        Body {
            player: p.id,
            slot,
            pos: v->0.mv.pos,
            radius,
            speed_scale: ONE,
            fixed: v->0.disabled,
        },
    )
}

/// One player's hulls. Nothing in the air shares ground with anything.
pub open spec fn bodies_of(rules: &Rules, p: Player) -> Seq<Body> {
    if p.eliminated {
        Seq::empty()
    } else {
        body_of(p, VehicleSlot::Tank, p.tank, rules.tank_radius) + body_of(
            p,
            VehicleSlot::Miner,
            p.miner,
            rules.miner_radius,
        )
    }
}

/// Every hull on the ground, in slot order.
pub open spec fn all_bodies(rules: &Rules, players: Seq<Option<Player>>) -> Seq<Body>
    decreases players.len(),
{
    if players.len() == 0 {
        Seq::empty()
    } else {
        let before = all_bodies(rules, players.drop_last());
        match players.last() {
            Some(p) => before + bodies_of(rules, p),
            None => before,
        }
    }
}

/// Ground is given by whoever can give it: both halfway, one of them all of it,
/// or nobody.
pub open spec fn gives_ground(own: Body, other: Body, whole: Vec2, half: Vec2) -> Vec2 {
    if own.fixed {
        own.pos
    } else if other.fixed {
        whole
    } else {
        half
    }
}

/// What a meeting costs, if it costs anything. Your own two vehicles bump each
/// other constantly; only an enemy costs hull.
pub open spec fn ram_of(rules: &Rules, a: Body, b: Body, c: Contact) -> Option<Ram> {
    if a.player != b.player && c.closing > rules.impact_threshold {
        Some(
            Ram {
                a: Charge { player: a.player, slot: a.slot, attacker: b.player, bearing: c.a_face },
                b: Charge { player: b.player, slot: b.slot, attacker: a.player, bearing: c.b_face },
            },
        )
    } else {
        None
    }
}

/// Whether these are the same hulls as before, moved at most: whose they are,
/// how wide they are and which of them are wrecks stays, and no wreck has moved.
pub open spec fn same_hulls(before: Seq<Body>, after: Seq<Body>) -> bool {
    &&& after.len() == before.len()
    &&& forall|k: int|
        0 <= k < before.len() ==> {
            let was = before[k];
            let is = #[trigger] after[k];
            &&& is == Body { pos: is.pos, speed_scale: is.speed_scale, ..was }
            &&& was.fixed ==> is.pos == was.pos
        }
}

/// Parts two hulls that ended the tick inside each other.
pub fn part(rules: &Rules, bodies: &mut Vec<Body>, i: usize, j: usize, c: Contact) -> (r: Option<
    Ram,
>)
    requires
        i < j < old(bodies)@.len(),
    ensures
        ({
            let (a, b) = (old(bodies)@[i as int], old(bodies)@[j as int]);
            let (a2, b2) = (final(bodies)@[i as int], final(bodies)@[j as int]);
            &&& a.fixed ==> a2.pos == a.pos
            &&& b.fixed ==> b2.pos == b.pos
            &&& !a.fixed && b.fixed ==> a2.pos == c.a_whole
            &&& a.fixed && !b.fixed ==> b2.pos == c.b_whole
            &&& !a.fixed && !b.fixed ==> a2.pos == c.a_half && b2.pos == c.b_half
            &&& a2.speed_scale == c.a_scale && b2.speed_scale == c.b_scale
            &&& r is Some <==> a.player != b.player && c.closing > rules.impact_threshold
            &&& r is Some ==> {
                &&& r->0.a.player == a.player && r->0.a.slot == a.slot
                &&& r->0.a.attacker == b.player && r->0.a.bearing == c.a_face
                &&& r->0.b.player == b.player && r->0.b.slot == b.slot
                &&& r->0.b.attacker == a.player && r->0.b.bearing == c.b_face
            }
        }),
        final(bodies)@.len() == old(bodies)@.len(),
        forall|k: int|
            0 <= k < old(bodies)@.len() && k != i && k != j ==> #[trigger] final(bodies)@[k] == old(
                bodies,
            )@[k],
        final(bodies)@ == old(bodies)@.update(
            i as int,
            Body {
                pos: gives_ground(
                    old(bodies)@[i as int],
                    old(bodies)@[j as int],
                    c.a_whole,
                    c.a_half,
                ),
                speed_scale: c.a_scale,
                ..old(bodies)@[i as int]
            },
        ).update(
            j as int,
            Body {
                pos: gives_ground(
                    old(bodies)@[j as int],
                    old(bodies)@[i as int],
                    c.b_whole,
                    c.b_half,
                ),
                speed_scale: c.b_scale,
                ..old(bodies)@[j as int]
            },
        ),
        same_hulls(old(bodies)@, final(bodies)@),
        r == ram_of(rules, old(bodies)@[i as int], old(bodies)@[j as int], c),
{
    // Copied out, so the positions already nudged by earlier pairs in this pass
    // are the ones being compared.
    let mut a = bodies[i];
    let mut b = bodies[j];
    match (a.fixed, b.fixed) {
        (true, true) => {},
        (true, false) => {
            b.pos = c.b_whole;
        },
        (false, true) => {
            a.pos = c.a_whole;
        },
        (false, false) => {
            a.pos = c.a_half;
            b.pos = c.b_half;
        },
    }
    a.speed_scale = c.a_scale;
    b.speed_scale = c.b_scale;
    bodies[i] = a;
    bodies[j] = b;
    if a.player == b.player || c.closing <= rules.impact_threshold {
        return None;
    }
    Some(
        Ram {
            a: Charge { player: a.player, slot: a.slot, attacker: b.player, bearing: c.a_face },
            b: Charge { player: b.player, slot: b.slot, attacker: a.player, bearing: c.b_face },
        },
    )
}

/// A number brought inside a span.
pub open spec fn clamped(x: Real, lo: Real, hi: Real) -> Real {
    if x < lo {
        lo
    } else if x > hi {
        hi
    } else {
        x
    }
}

fn clamp(x: Real, lo: Real, hi: Real) -> (r: Real)
    ensures
        lo <= hi ==> lo <= r <= hi,
        lo <= x <= hi ==> r == x,
        x < lo ==> r == lo,
        x > hi && x >= lo ==> r == hi,
        r == clamped(x, lo, hi),
{
    if x < lo {
        lo
    } else if x > hi {
        hi
    } else {
        x
    }
}

/// A place brought inside the wall.
pub open spec fn walled(at: Vec2, lo: Real, hi: Real) -> Vec2 {
    Vec2 { x: clamped(at.x, lo, hi), y: clamped(at.y, lo, hi) }
}

/// How fast something goes, whichever way.
pub open spec fn pace(speed: Real) -> int {
    if speed < 0 {
        -speed
    } else {
        speed as int
    }
}

/// What is left of a speed once some of it was lost. Nobody is pushed along:
/// whatever is left is never more than there was.
pub open spec fn slowed(was: Real, left: Real) -> Real {
    if left > pace(was) {
        pace(was) as Real
    } else if left < -pace(was) {
        (-pace(was)) as Real
    } else {
        left
    }
}

fn slow(was: Real, left: Real) -> (r: Real)
    ensures
        was >= 0 ==> -was <= r <= was,
        was < 0 ==> was <= r <= -was,
        -was <= left <= was || was <= left <= -was ==> r == left,
        left >= 0 ==> r >= 0 && r <= left,
        left <= 0 ==> r <= 0 && r >= left,
        r == slowed(was, left),
        pace(r) <= pace(was),
{
    let limit: i64 = if was < 0 {
        -(was as i64)
    } else {
        was as i64
    };
    if left as i64 > limit {
        limit as i32
    } else if (left as i64) < -limit {
        (-limit) as i32
    } else {
        left
    }
}

/// One vehicle put where its hull ended up, inside the wall and no faster than
/// it was, if it is there.
pub open spec fn settled_option(
    v: Option<Vehicle>,
    lo: Real,
    hi: Real,
    at: Vec2,
    left: Real,
) -> Option<Vehicle> {
    match v {
        Some(v) => Some(
            Vehicle {
                mv: MoveState {
                    pos: walled(at, lo, hi),
                    speed: slowed(v.mv.speed, left),
                    ..v.mv
                },
                ..v
            },
        ),
        None => None,
    }
}

/// Where a player's miner is among the hulls, if their first hull is at `k`.
pub open spec fn miner_at(p: Player, k: int) -> int {
    if p.tank is Some {
        k + 1
    } else {
        k
    }
}

/// A player whose hulls have been parted, the first of them at `k`.
pub open spec fn settled(
    rules: &Rules,
    p: Player,
    bodies: Seq<Body>,
    speeds: Seq<Real>,
    k: int,
) -> Player {
    if p.eliminated {
        p
    } else {
        let m = miner_at(p, k);
        Player {
            tank: settled_option(
                p.tank,
                rules.tank_radius,
                rules.tank_wall,
                bodies[k].pos,
                speeds[k],
            ),
            miner: settled_option(
                p.miner,
                rules.miner_radius,
                rules.miner_wall,
                bodies[m].pos,
                speeds[m],
            ),
            ..p
        }
    }
}

/// The number of the first hull of whoever is in a slot.
pub open spec fn first_body(rules: &Rules, players: Seq<Option<Player>>, i: int) -> int {
    all_bodies(rules, players.take(i)).len() as int
}

/// The players once their hulls have been parted.
pub open spec fn players_settled(
    rules: &Rules,
    players: Seq<Option<Player>>,
    bodies: Seq<Body>,
    speeds: Seq<Real>,
) -> Seq<Option<Player>> {
    Seq::new(
        players.len(),
        |i: int|
            match players[i] {
                Some(p) => Some(
                    settled(rules, p, bodies, speeds, first_body(rules, players, i)),
                ),
                None => None,
            },
    )
}

/// What parting the hulls does to a match.
pub open spec fn settle_outcome(
    before: &Game,
    after: &Game,
    bodies: Seq<Body>,
    speeds: Seq<Real>,
) -> bool {
    &&& *after == Game { players: after.players, ..*before }
    &&& after.players@ =~= players_settled(&before.rules, before.players@, bodies, speeds)
}

impl Game {
    /// Every hull on the ground.
    pub fn bodies(&self) -> (r: Vec<Body>)
        ensures
            r@ == all_bodies(&self.rules, self.players@),
    {
        let mut out: Vec<Body> = Vec::new();
        let mut i: usize = 0;
        while i < self.players.len()
            invariant
                i <= self.players@.len(),
                out@ == all_bodies(&self.rules, self.players@.take(i as int)),
            decreases self.players.len() - i,
        {
            assert(self.players@.take(i + 1).drop_last() =~= self.players@.take(i as int));
            if let Some(p) = &self.players[i] {
                let ghost before = out@;
                if !p.eliminated {
                    if let Some(v) = &p.tank {
                        out.push(
                            Body {
                                player: p.id,
                                slot: VehicleSlot::Tank,
                                pos: v.mv.pos,
                                radius: self.rules.tank_radius,
                                speed_scale: ONE,
                                fixed: v.disabled,
                            },
                        );
                    }
                    if let Some(v) = &p.miner {
                        out.push(
                            Body {
                                player: p.id,
                                slot: VehicleSlot::Miner,
                                pos: v.mv.pos,
                                radius: self.rules.miner_radius,
                                speed_scale: ONE,
                                fixed: v.disabled,
                            },
                        );
                    }
                }
                assert(out@ =~= before + bodies_of(&self.rules, *p));
            }
            i = i + 1;
        }
        assert(self.players@.take(self.players@.len() as int) =~= self.players@);
        out
    }

    /// Puts every hull where it ended up once all of them were parted. A push
    /// can put a hull past the edge of the world, so it is brought back inside
    /// the wall here; a hill is left to the next tick of driving.
    ///
    /// `bodies` are the hulls on the ground, parted, and `speeds` what is left
    /// of each one's speed.
    pub fn settle_bodies(&mut self, bodies: &Vec<Body>, speeds: &Vec<Real>)
        requires
            old(self).wf(),
            same_hulls(all_bodies(&old(self).rules, old(self).players@), bodies@),
            speeds@.len() == bodies@.len(),
        ensures
            final(self).wf(),
            settle_outcome(old(self), final(self), bodies@, speeds@),
            hulls_inside(&old(self).rules, final(self).players@),
            no_faster(old(self).players@, final(self).players@),
    {
        let ghost after = players_settled(&self.rules, self.players@, bodies@, speeds@);
        let mut k: usize = 0;
        let mut i: usize = 0;
        while i < self.players.len()
            invariant
                i <= self.players@.len(),
                old(self).wf(),
                self.players@.len() == old(self).players@.len(),
                bodies@.len() == all_bodies(&old(self).rules, old(self).players@).len(),
                speeds@.len() == bodies@.len(),
                k == first_body(&old(self).rules, old(self).players@, i as int),
                after == players_settled(
                    &old(self).rules,
                    old(self).players@,
                    bodies@,
                    speeds@,
                ),
                *self == (Game { players: self.players, ..*old(self) }),
                forall|n: int| 0 <= n < i ==> #[trigger] self.players@[n] == after[n],
                forall|n: int|
                    i <= n < self.players@.len() ==> #[trigger] self.players@[n] == old(
                        self,
                    ).players@[n],
            decreases self.players.len() - i,
        {
            let ghost now = old(self).players@;
            proof {
                assert(now.take(i + 1).drop_last() =~= now.take(i as int));
                lemma_bodies_add_up(&old(self).rules, now, i + 1);
                assert(bodies@.len() == bodies.len());
            }
            if let Some(p) = self.players[i].as_mut() {
                if !p.eliminated {
                    if let Some(v) = p.tank.as_mut() {
                        let at = bodies[k].pos;
                        let (lo, hi) = (self.rules.tank_radius, self.rules.tank_wall);
                        v.mv.pos = Vec2 { x: clamp(at.x, lo, hi), y: clamp(at.y, lo, hi) };
                        v.mv.speed = slow(v.mv.speed, speeds[k]);
                        k = k + 1;
                    }
                    if let Some(v) = p.miner.as_mut() {
                        let at = bodies[k].pos;
                        let (lo, hi) = (self.rules.miner_radius, self.rules.miner_wall);
                        v.mv.pos = Vec2 { x: clamp(at.x, lo, hi), y: clamp(at.y, lo, hi) };
                        v.mv.speed = slow(v.mv.speed, speeds[k]);
                        k = k + 1;
                    }
                }
            }
            i = i + 1;
        }
        assert(self.players@ =~= after);
    }

    /// Whether two players' aircraft fly into each other.
    pub open spec fn aircraft_meet(&self, a: u8, b: u8, brush: Brush) -> bool {
        &&& a != b
        &&& self.player_spec(a) is Some
        &&& self.player_spec(b) is Some
        &&& can_be_hurt(self.player_spec(a)->0, VehicleSlot::Plane)
        &&& can_be_hurt(self.player_spec(b)->0, VehicleSlot::Plane)
        &&& brush.clearance <= 0
        &&& brush.height_gap <= self.rules.same_height
    }

    /// What two aircraft coming near each other does to a match.
    pub open spec fn meet_outcome(
        &self,
        after: &Game,
        a: u8,
        b: u8,
        brush: Brush,
        a_blow: Blow,
        b_blow: Blow,
        a_face: Real,
        b_face: Real,
    ) -> bool {
        if self.aircraft_meet(a, b, brush) {
            let pa = self.players@[a as int]->0;
            let pb = self.players@[b as int]->0;
            &&& *after == Game {
                players: after.players,
                events: after.events,
                fx: after.fx,
                ..*self
            }
            &&& after.events@ =~= self.events@
            &&& after.players@ =~= self.players@.update(
                a as int,
                Some(wounded(pa, VehicleSlot::Plane, a_blow)),
            ).update(b as int, Some(wounded(pb, VehicleSlot::Plane, b_blow)))
            &&& after.fx@ =~= self.fx@ + shield_flash(pa, VehicleSlot::Plane, a_face)
                + shield_flash(pb, VehicleSlot::Plane, b_face)
        } else {
            *after == *self
        }
    }

    /// Charges both sides of a meeting in the air. Two aircraft at different
    /// heights pass straight through each other. Nobody wins the exchange: it
    /// does not matter who flew into whom.
    ///
    /// `a_blow` and `b_blow` are the gauges of each with half of everything off
    /// them; `a_face` and `b_face` the face of each that met the other.
    pub fn meet_in_air(
        &mut self,
        a: u8,
        b: u8,
        brush: Brush,
        a_blow: Blow,
        b_blow: Blow,
        a_face: Real,
        b_face: Real,
    ) -> (met: bool)
        requires
            old(self).wf(),
        ensures
            met <==> {
                &&& a != b && brush.clearance <= 0 && brush.height_gap <= old(self).rules.same_height
                &&& old(self).player_spec(a) is Some && old(self).player_spec(a)->0.plane is Some
                &&& !old(self).player_spec(a)->0.plane->0.disabled
                &&& old(self).player_spec(b) is Some && old(self).player_spec(b)->0.plane is Some
                &&& !old(self).player_spec(b)->0.plane->0.disabled
            },
            !met ==> *final(self) == *old(self),
            met ==> {
                let (p, q) = (final(self).players@[a as int]->0, final(self).players@[b as int]->0);
                let (p0, q0) = (old(self).players@[a as int]->0, old(self).players@[b as int]->0);
                &&& p.plane is Some <==> a_blow.hull > 0
                &&& q.plane is Some <==> b_blow.hull > 0
                &&& p.plane is Some ==> p.plane->0.hull == a_blow.hull && p.plane->0.shield
                    == a_blow.shield
                &&& q.plane is Some ==> q.plane->0.hull == b_blow.hull && q.plane->0.shield
                    == b_blow.shield
                &&& p.tank == p0.tank && p.miner == p0.miner && q.tank == q0.tank && q.miner == q0.miner
                &&& forall|k: int|
                    0 <= k < old(self).players@.len() && k != a && k != b
                        ==> #[trigger] final(self).players@[k] == old(self).players@[k]
            },
            final(self).wf(),
            met == old(self).aircraft_meet(a, b, brush),
            old(self).meet_outcome(final(self), a, b, brush, a_blow, b_blow, a_face, b_face),
    {
        if a == b || brush.clearance > 0 || brush.height_gap > self.rules.same_height {
            return false;
        }
        let a_up = match self.player(a) {
            Some(p) => match &p.plane {
                Some(v) => !v.disabled,
                None => false,
            },
            None => false,
        };
        let b_up = match self.player(b) {
            Some(p) => match &p.plane {
                Some(v) => !v.disabled,
                None => false,
            },
            None => false,
        };
        if !a_up || !b_up {
            return false;
        }
        self.damage_vehicle(a, VehicleSlot::Plane, a_blow, b, a_face);
        self.damage_vehicle(b, VehicleSlot::Plane, b_blow, a, b_face);
        true
    }
}

/// Whether a hull is inside the wall.
pub open spec fn inside(v: Vehicle, lo: Real, hi: Real) -> bool {
    lo <= v.mv.pos.x <= hi && lo <= v.mv.pos.y <= hi
}

/// Whether every hull on the ground is inside the wall.
pub open spec fn hulls_inside(rules: &Rules, players: Seq<Option<Player>>) -> bool {
    forall|i: int|
        0 <= i < players.len() && (#[trigger] players[i]) is Some && !players[i]->0.eliminated ==> {
            let p = players[i]->0;
            &&& p.tank is Some ==> inside(p.tank->0, rules.tank_radius, rules.tank_wall)
            &&& p.miner is Some ==> inside(p.miner->0, rules.miner_radius, rules.miner_wall)
        }
}

/// Whether nothing goes faster than it did.
pub open spec fn no_faster(before: Seq<Option<Player>>, after: Seq<Option<Player>>) -> bool {
    forall|i: int|
        0 <= i < before.len() && (#[trigger] after[i]) is Some ==> {
            let (was, is) = (before[i]->0, after[i]->0);
            &&& is.tank is Some ==> pace(is.tank->0.mv.speed) <= pace(was.tank->0.mv.speed)
            &&& is.miner is Some ==> pace(is.miner->0.mv.speed) <= pace(was.miner->0.mv.speed)
        }
}

/// Paying for a ram puts nobody past the wall, and speeds nobody up.
pub proof fn lemma_paying_keeps_hulls_inside(
    before: &Game,
    after: &Game,
    player: u8,
    slot: VehicleSlot,
    blow: Blow,
    attacker: u8,
    bearing: Real,
)
    requires
        hulls_inside(&before.rules, before.players@),
        damage_outcome(before, after, player, slot, blow, attacker, bearing),
    ensures
        hulls_inside(&after.rules, after.players@),
        no_faster(before.players@, after.players@),
{
    assert forall|i: int| 0 <= i < after.players@.len() && (#[trigger] after.players@[i]) is Some
        && !after.players@[i]->0.eliminated implies {
        let p = after.players@[i]->0;
        &&& p.tank is Some ==> inside(p.tank->0, after.rules.tank_radius, after.rules.tank_wall)
        &&& p.miner is Some ==> inside(p.miner->0, after.rules.miner_radius, after.rules.miner_wall)
    } by {
        assert(before.players@[i] is Some);
    }
}

/// There are no fewer hulls among more players.
proof fn lemma_bodies_add_up(rules: &Rules, players: Seq<Option<Player>>, n: int)
    requires
        0 <= n <= players.len(),
    ensures
        all_bodies(rules, players.take(n)).len() <= all_bodies(rules, players).len(),
    decreases players.len() - n,
{
    if n < players.len() {
        assert(players.take(n + 1).drop_last() =~= players.take(n));
        lemma_bodies_add_up(rules, players, n + 1);
    } else {
        assert(players.take(n) =~= players);
    }
}

/// The same hulls, moved and moved again, are the same hulls.
pub proof fn lemma_parting_keeps_the_hulls(a: Seq<Body>, b: Seq<Body>, c: Seq<Body>)
    requires
        same_hulls(a, b),
        same_hulls(b, c),
    ensures
        same_hulls(a, c),
{
    assert forall|k: int| 0 <= k < a.len() implies {
        let was = a[k];
        let is = #[trigger] c[k];
        &&& is == Body { pos: is.pos, speed_scale: is.speed_scale, ..was }
        &&& was.fixed ==> is.pos == was.pos
    } by {
        assert(b[k] == Body { pos: b[k].pos, speed_scale: b[k].speed_scale, ..a[k] });
    }
}

/// Parting the hulls leaves aircraft, emplacements and whoever is off the field
/// alone, and costs nobody hull.
pub proof fn lemma_parting_moves_hulls_only(
    before: &Game,
    after: &Game,
    bodies: Seq<Body>,
    speeds: Seq<Real>,
    i: int,
)
    requires
        settle_outcome(before, after, bodies, speeds),
        0 <= i < before.players@.len(),
        before.players@[i] is Some,
    ensures
        after.players@[i] is Some,
        ({
            let (was, is) = (before.players@[i]->0, after.players@[i]->0);
            &&& is == Player { tank: is.tank, miner: is.miner, ..was }
            &&& was.eliminated ==> is == was
            &&& is.tank is Some <==> was.tank is Some
            &&& is.miner is Some <==> was.miner is Some
            &&& was.tank is Some ==> is.tank->0 == Vehicle { mv: is.tank->0.mv, ..was.tank->0 }
            &&& was.miner is Some ==> is.miner->0 == Vehicle { mv: is.miner->0.mv, ..was.miner->0 }
        }),
{
}

/// A wreck inside the wall stays exactly where it is, whatever was driven into
/// it.
pub proof fn lemma_a_wreck_stays_where_it_is(
    before: &Game,
    after: &Game,
    bodies: Seq<Body>,
    speeds: Seq<Real>,
    i: int,
)
    requires
        same_hulls(all_bodies(&before.rules, before.players@), bodies),
        settle_outcome(before, after, bodies, speeds),
        0 <= i < before.players@.len(),
        before.players@[i] is Some,
        before.players@[i]->0.miner is Some,
        before.players@[i]->0.miner->0.disabled,
        inside(
            before.players@[i]->0.miner->0,
            before.rules.miner_radius,
            before.rules.miner_wall,
        ),
    ensures
        after.players@[i]->0.miner->0.mv.pos == before.players@[i]->0.miner->0.mv.pos,
        after.players@[i]->0.miner->0.hull == before.players@[i]->0.miner->0.hull,
{
    let p = before.players@[i]->0;
    if !p.eliminated {
        lemma_bodies_of_a_slot(&before.rules, before.players@, i, before.players@.len() as int);
        assert(before.players@.take(before.players@.len() as int) =~= before.players@);
        let k = first_body(&before.rules, before.players@, i);
        let m = miner_at(p, k);
        assert(bodies_of(&before.rules, p)[m - k].fixed);
        assert(bodies[m].pos == p.miner->0.mv.pos);
    }
}

/// A player's hulls stand together among all of them.
proof fn lemma_bodies_of_a_slot(rules: &Rules, players: Seq<Option<Player>>, i: int, n: int)
    requires
        0 <= i < n <= players.len(),
        players[i] is Some,
    ensures
        ({
            let k = first_body(rules, players, i);
            let mine = bodies_of(rules, players[i]->0);
            let all = all_bodies(rules, players.take(n));
            &&& k + mine.len() <= all.len()
            &&& forall|j: int| 0 <= j < mine.len() ==> all[k + j] == #[trigger] mine[j]
        }),
    decreases n,
{
    assert(players.take(n).drop_last() =~= players.take(n - 1));
    if i < n - 1 {
        lemma_bodies_of_a_slot(rules, players, i, n - 1);
    }
}

/// A wreck is solid: it gives no ground to anything.
pub proof fn lemma_a_wreck_gives_no_ground(own: Body, other: Body, whole: Vec2, half: Vec2)
    requires
        own.fixed,
    ensures
        gives_ground(own, other, whole, half) == own.pos,
{
}

/// Both sides of a ram pay, and each is charged to the other.
pub proof fn lemma_both_sides_of_a_ram_pay(rules: &Rules, a: Body, b: Body, c: Contact)
    ensures
        match ram_of(rules, a, b, c) {
            Some(ram) => {
                &&& ram.a.player == a.player
                &&& ram.a.attacker == b.player
                &&& ram.b.player == b.player
                &&& ram.b.attacker == a.player
                &&& ram.a.player != ram.b.player
            },
            None => a.player == b.player || c.closing <= rules.impact_threshold,
        },
{
}

/// Every hull on the ground is among the hulls, where it stands and as wide as it
/// is, with all of its speed still to lose; one that is a wreck gives no ground.
pub proof fn lemma_every_hull_is_a_body(rules: &Rules, players: Seq<Option<Player>>, i: int)
    requires
        0 <= i < players.len(),
        players[i] is Some,
        !players[i]->0.eliminated,
    ensures
        ({
            let p = players[i]->0;
            let all = all_bodies(rules, players);
            &&& p.tank is Some ==> all.contains(
                Body {
                    player: p.id,
                    slot: VehicleSlot::Tank,
                    pos: p.tank->0.mv.pos,
                    radius: rules.tank_radius,
                    speed_scale: ONE,
                    fixed: p.tank->0.disabled,
                },
            )
            &&& p.miner is Some ==> all.contains(
                Body {
                    player: p.id,
                    slot: VehicleSlot::Miner,
                    pos: p.miner->0.mv.pos,
                    radius: rules.miner_radius,
                    speed_scale: ONE,
                    fixed: p.miner->0.disabled,
                },
            )
        }),
{
    let p = players[i]->0;
    let all = all_bodies(rules, players);
    let mine = bodies_of(rules, p);
    lemma_bodies_of_a_slot(rules, players, i, players.len() as int);
    assert(players.take(players.len() as int) =~= players);
    let k = first_body(rules, players, i);
    if p.tank is Some {
        assert(all[k + 0] == mine[0]);
    }
    if p.miner is Some {
        let j = miner_at(p, 0);
        assert(all[k + j] == mine[j]);
    }
}

/// A hull among the hulls is somebody's on the field. An aircraft never is: it
/// shares ground with nothing.
pub proof fn lemma_a_body_is_somebodys(rules: &Rules, players: Seq<Option<Player>>, b: Body)
    requires
        all_bodies(rules, players).contains(b),
    ensures
        b.slot != VehicleSlot::Plane,
        exists|i: int|
            #![trigger players[i]]
            0 <= i < players.len() && players[i] is Some && !players[i]->0.eliminated
                && players[i]->0.id == b.player && players[i]->0.vehicle_spec(b.slot) is Some
                && players[i]->0.vehicle_spec(b.slot)->0.mv.pos == b.pos,
    decreases players.len(),
{
    if players.len() > 0 {
        let shorter = players.drop_last();
        let before = all_bodies(rules, shorter);
        let all = all_bodies(rules, players);
        let k = choose|k: int| 0 <= k < all.len() && all[k] == b;
        if k < before.len() {
            assert(before[k] == b);
            lemma_a_body_is_somebodys(rules, shorter, b);
            let i = choose|i: int|
                #![trigger shorter[i]]
                0 <= i < shorter.len() && shorter[i] is Some && !shorter[i]->0.eliminated
                    && shorter[i]->0.id == b.player && shorter[i]->0.vehicle_spec(b.slot) is Some
                    && shorter[i]->0.vehicle_spec(b.slot)->0.mv.pos == b.pos;
            assert(players[i] == shorter[i]);
        } else {
            let p = players.last()->0;
            assert(players[players.len() - 1] == players.last());
            let own = bodies_of(rules, p);
            assert(own[k - before.len()] == b);
        }
    }
}

/// Each vehicle goes where its own hull went: there is a hull of that player's in
/// that slot, and the vehicle ends up at its place, as long as that is inside the
/// wall, at the speed it has left, as long as that is no more than it had.
pub proof fn lemma_each_hull_settles_as_its_own(
    before: &Game,
    after: &Game,
    bodies: Seq<Body>,
    speeds: Seq<Real>,
    i: int,
)
    requires
        same_hulls(all_bodies(&before.rules, before.players@), bodies),
        speeds.len() == bodies.len(),
        settle_outcome(before, after, bodies, speeds),
        0 <= i < before.players@.len(),
        before.players@[i] is Some,
        !before.players@[i]->0.eliminated,
    ensures
        before.players@[i]->0.tank is Some ==> exists|k: int|
            0 <= k < bodies.len() && (#[trigger] bodies[k]).player == before.players@[i]->0.id
                && bodies[k].slot == VehicleSlot::Tank && goes_with(
                after.players@[i]->0.tank->0,
                before.players@[i]->0.tank->0,
                bodies[k].pos,
                speeds[k],
                before.rules.tank_radius,
                before.rules.tank_wall,
            ),
        before.players@[i]->0.miner is Some ==> exists|k: int|
            0 <= k < bodies.len() && (#[trigger] bodies[k]).player == before.players@[i]->0.id
                && bodies[k].slot == VehicleSlot::Miner && goes_with(
                after.players@[i]->0.miner->0,
                before.players@[i]->0.miner->0,
                bodies[k].pos,
                speeds[k],
                before.rules.miner_radius,
                before.rules.miner_wall,
            ),
{
    let players = before.players@;
    let p = players[i]->0;
    let all = all_bodies(&before.rules, players);
    let mine = bodies_of(&before.rules, p);
    lemma_bodies_of_a_slot(&before.rules, players, i, players.len() as int);
    assert(players.take(players.len() as int) =~= players);
    let k = first_body(&before.rules, players, i);
    if p.tank is Some {
        assert(all[k + 0] == mine[0]);
        assert(bodies[k].player == p.id && bodies[k].slot == VehicleSlot::Tank);
    }
    if p.miner is Some {
        let m = miner_at(p, k);
        assert(all[k + (m - k)] == mine[m - k]);
        assert(bodies[m].player == p.id && bodies[m].slot == VehicleSlot::Miner);
    }
}

/// Whether a vehicle ended up where its hull was put, inside the wall, and at
/// what it had left of its speed.
pub open spec fn goes_with(
    is: Vehicle,
    was: Vehicle,
    at: Vec2,
    left: Real,
    lo: Real,
    hi: Real,
) -> bool {
    &&& lo <= at.x <= hi ==> is.mv.pos.x == at.x
    &&& lo <= at.y <= hi ==> is.mv.pos.y == at.y
    &&& at.x < lo ==> is.mv.pos.x == lo
    &&& at.y < lo ==> is.mv.pos.y == lo
    &&& at.x > hi && at.x >= lo ==> is.mv.pos.x == hi
    &&& at.y > hi && at.y >= lo ==> is.mv.pos.y == hi
    &&& -was.mv.speed <= left <= was.mv.speed || was.mv.speed <= left <= -was.mv.speed
        ==> is.mv.speed == left
    &&& is.mv.yaw == was.mv.yaw
}

/// A hull that meets something comes off it no faster than it came, and keeps
/// what is left of its speed where that is less.
pub proof fn lemma_nobody_is_pushed_along(was: Real, left: Real)
    ensures
        was >= 0 ==> -was <= slowed(was, left) <= was,
        was < 0 ==> was <= slowed(was, left) <= -was,
        -was <= left <= was || was <= left <= -was ==> slowed(was, left) == left,
        left >= 0 ==> 0 <= slowed(was, left) <= left,
        left <= 0 ==> left <= slowed(was, left) <= 0,
{
}

} // verus!
