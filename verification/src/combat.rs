//! What can be hit, and what a hit does.

use vstd::prelude::*;

use crate::game::{slots_wf, Game};
use crate::measure::{listed_if, Real, Vec2};
use crate::player::{Player, Sentinel, Vehicle};
use crate::protocol::{GameEvent, HitFx, HitKind, VehicleSlot};
use crate::rules::{Rules, SORTIE_COOLDOWN, TANK_RESPAWN_DELAY};

verus! {

/// What of a player's can be hit.
#[derive(Clone, Copy, Debug, PartialEq, Eq, Structural)]
pub enum Hittable {
    Vehicle(VehicleSlot),
    Sentinel,
}

/// Something a shell can run into.
#[derive(Clone, Copy, Debug, PartialEq, Eq, Structural)]
pub struct Target {
    pub player: u8,
    pub what: Hittable,
    pub pos: Vec2,
    pub radius: Real,
}

/// A hit waiting to be paid for.
#[derive(Clone, Copy, Debug, PartialEq, Eq, Structural)]
pub struct Hit {
    pub player: u8,
    pub what: Hittable,
    pub damage: Real,
    pub attacker: u8,
    /// The direction the blow came in on, used only to place the shield flash
    /// on the right face.
    pub bearing: Real,
}

/// What the gauges of whatever was hit read once the damage is off them. An
/// emplacement has no shield.
#[derive(Clone, Copy, Debug, PartialEq, Eq, Structural)]
pub struct Blow {
    pub shield: Real,
    pub hull: Real,
}

/// What of one player's stands on the ground to be shot at.
///
/// The aircraft is deliberately absent: every gun down there fires along the
/// ground. Rubble is not worth shooting at.
pub open spec fn ground_targets_of(rules: &Rules, p: Player) -> Seq<Target> {
    if p.eliminated {
        Seq::empty()
    } else {
        listed_if(
            p.tank is Some,
            Target {
                player: p.id,
                what: Hittable::Vehicle(VehicleSlot::Tank),
                pos: p.tank->0.mv.pos,
                radius: rules.tank_radius,
            },
        ) + listed_if(
            p.miner is Some,
            Target {
                player: p.id,
                what: Hittable::Vehicle(VehicleSlot::Miner),
                pos: p.miner->0.mv.pos,
                radius: rules.miner_radius,
            },
        ) + listed_if(
            p.sentinel.is_standing(),
            Target {
                player: p.id,
                what: Hittable::Sentinel,
                pos: rules.corners@[p.id as int].post,
                radius: rules.sentinel_radius,
            },
        )
    }
}

/// What of one player's is in the air to be shot at.
pub open spec fn air_targets_of(rules: &Rules, p: Player) -> Seq<Target> {
    listed_if(
        !p.eliminated && p.plane is Some,
        Target {
            player: p.id,
            what: Hittable::Vehicle(VehicleSlot::Plane),
            pos: p.plane->0.mv.pos,
            radius: rules.plane_radius,
        },
    )
}

/// Everything on the ground to be shot at, in slot order.
pub open spec fn ground_targets(rules: &Rules, players: Seq<Option<Player>>) -> Seq<Target>
    decreases players.len(),
{
    if players.len() == 0 {
        Seq::empty()
    } else {
        let before = ground_targets(rules, players.drop_last());
        match players.last() {
            Some(p) => before + ground_targets_of(rules, p),
            None => before,
        }
    }
}

/// Everything in the air to be shot at, in slot order.
pub open spec fn air_targets(rules: &Rules, players: Seq<Option<Player>>) -> Seq<Target>
    decreases players.len(),
{
    if players.len() == 0 {
        Seq::empty()
    } else {
        let before = air_targets(rules, players.drop_last());
        match players.last() {
            Some(p) => before + air_targets_of(rules, p),
            None => before,
        }
    }
}

/// Whether there is something in a slot for a hit to land on. A wreck takes
/// nothing.
pub open spec fn can_be_hurt(p: Player, slot: VehicleSlot) -> bool {
    p.vehicle_spec(slot) is Some && !p.vehicle_spec(slot)->0.disabled
}

/// A player whose vehicle was hit.
///
/// Tanks are replaceable; losing one costs tempo, not the match. Miners are
/// never destroyed: they go dead in the water, with the cargo still aboard, and
/// become something an enemy tank has to come and take. An aircraft that is
/// shot down ends its sortie as running dry would.
pub open spec fn wounded(p: Player, slot: VehicleSlot, blow: Blow) -> Player {
    let hit = Vehicle {
        since_damage: 0,
        shield: blow.shield,
        hull: blow.hull,
        ..p.vehicle_spec(slot)->0
    };
    if blow.hull > 0 {
        p.with_vehicle(slot, Some(hit))
    } else {
        match slot {
            VehicleSlot::Tank => Player {
                tank: None,
                respawn_timer: TANK_RESPAWN_DELAY,
                ..p
            },
            VehicleSlot::Miner => Player {
                miner: Some(Vehicle { disabled: true, capture_progress: 0, ..hit }),
                ..p
            },
            VehicleSlot::Plane => Player { plane: None, sortie_cooldown: SORTIE_COOLDOWN, ..p },
        }
    }
}

/// What everybody is told about a hit.
pub open spec fn wound_events(player: u8, slot: VehicleSlot, blow: Blow, attacker: u8) -> Seq<
    GameEvent,
> {
    if blow.hull > 0 {
        Seq::empty()
    } else {
        match slot {
            VehicleSlot::Tank => seq![GameEvent::TankDestroyed { player, by: attacker }],
            VehicleSlot::Miner => seq![GameEvent::MinerDisabled { player }],
            VehicleSlot::Plane => Seq::empty(),
        }
    }
}

/// The flash a shield gives off as it soaks a hit.
pub open spec fn shield_flash(p: Player, slot: VehicleSlot, bearing: Real) -> Seq<HitFx> {
    let v = p.vehicle_spec(slot)->0;
    listed_if(
        v.shield > 0,
        HitFx::on_vehicle_spec(HitKind::Shield, v.mv.pos, bearing, p.id, slot),
    )
}

/// An emplacement that was hit.
pub open spec fn battered(rules: &Rules, s: Sentinel, hull: Real) -> Sentinel {
    if hull > 0 {
        Sentinel { hull, ..s }
    } else {
        Sentinel { hull, rebuild_timer: rules.sentinel_rebuild, gun_cooldown: 0, ..s }
    }
}

/// The players, the events and the impacts of a match once a hit on a vehicle
/// has been paid for.
pub open spec fn vehicle_paid(
    before: &Game,
    after: &Game,
    player: u8,
    slot: VehicleSlot,
    blow: Blow,
    attacker: u8,
    bearing: Real,
) -> bool {
    match before.player_spec(player) {
        Some(p) if can_be_hurt(p, slot) => {
            &&& after.players@ =~= before.players@.update(player as int, Some(wounded(p, slot, blow)))
            &&& after.events@ =~= before.events@ + wound_events(player, slot, blow, attacker)
            &&& after.fx@ =~= before.fx@ + shield_flash(p, slot, bearing)
        },
        _ => {
            &&& after.players@ =~= before.players@
            &&& after.events@ =~= before.events@
            &&& after.fx@ =~= before.fx@
        },
    }
}

/// The players and the events of a match once a hit on an emplacement has been
/// paid for. There is no shield to flash.
pub open spec fn sentinel_paid(before: &Game, after: &Game, player: u8, hull: Real) -> bool {
    &&& after.fx@ =~= before.fx@
    &&& match before.player_spec(player) {
        Some(p) if p.sentinel.is_standing() => {
            &&& after.players@ =~= before.players@.update(
                player as int,
                Some(Player { sentinel: battered(&before.rules, p.sentinel, hull), ..p }),
            )
            &&& after.events@ =~= before.events@ + listed_if(
                hull <= 0,
                GameEvent::SentinelDestroyed { player },
            )
        },
        _ => {
            &&& after.players@ =~= before.players@
            &&& after.events@ =~= before.events@
        },
    }
}

/// What a hit on a vehicle does to a match.
pub open spec fn damage_outcome(
    before: &Game,
    after: &Game,
    player: u8,
    slot: VehicleSlot,
    blow: Blow,
    attacker: u8,
    bearing: Real,
) -> bool {
    &&& *after == Game {
        players: after.players,
        events: after.events,
        fx: after.fx,
        ..*before
    }
    &&& vehicle_paid(before, after, player, slot, blow, attacker, bearing)
}

/// What a hit does to a match, on whatever it landed.
pub open spec fn strike_outcome(before: &Game, after: &Game, hit: Hit, blow: Blow) -> bool {
    &&& *after == Game {
        players: after.players,
        events: after.events,
        fx: after.fx,
        ..*before
    }
    &&& match hit.what {
        Hittable::Vehicle(slot) => vehicle_paid(
            before,
            after,
            hit.player,
            slot,
            blow,
            hit.attacker,
            hit.bearing,
        ),
        Hittable::Sentinel => sentinel_paid(before, after, hit.player, blow.hull),
    }
}

impl Game {
    /// Everything on the ground that a shell can run into.
    pub fn collect_targets(&self) -> (r: Vec<Target>)
        requires
            self.wf(),
        ensures
            r@ == ground_targets(&self.rules, self.players@),
    {
        let mut out: Vec<Target> = Vec::new();
        let mut i: usize = 0;
        while i < self.players.len()
            invariant
                self.wf(),
                i <= self.players@.len(),
                out@ == ground_targets(&self.rules, self.players@.take(i as int)),
            decreases self.players.len() - i,
        {
            assert(self.players@.take(i + 1).drop_last() =~= self.players@.take(i as int));
            if let Some(p) = &self.players[i] {
                let ghost before = out@;
                if !p.eliminated {
                    if let Some(v) = &p.tank {
                        out.push(
                            Target {
                                player: p.id,
                                what: Hittable::Vehicle(VehicleSlot::Tank),
                                pos: v.mv.pos,
                                radius: self.rules.tank_radius,
                            },
                        );
                    }
                    if let Some(v) = &p.miner {
                        out.push(
                            Target {
                                player: p.id,
                                what: Hittable::Vehicle(VehicleSlot::Miner),
                                pos: v.mv.pos,
                                radius: self.rules.miner_radius,
                            },
                        );
                    }
                    if p.sentinel.standing() {
                        out.push(
                            Target {
                                player: p.id,
                                what: Hittable::Sentinel,
                                pos: self.rules.corners[p.id as usize].post,
                                radius: self.rules.sentinel_radius,
                            },
                        );
                    }
                }
                assert(out@ =~= before + ground_targets_of(&self.rules, *p));
            }
            i = i + 1;
        }
        assert(self.players@.take(self.players@.len() as int) =~= self.players@);
        out
    }

    /// Every aircraft that a cannon round can run into.
    pub fn collect_aircraft(&self) -> (r: Vec<Target>)
        ensures
            r@ == air_targets(&self.rules, self.players@),
    {
        let mut out: Vec<Target> = Vec::new();
        let mut i: usize = 0;
        while i < self.players.len()
            invariant
                i <= self.players@.len(),
                out@ == air_targets(&self.rules, self.players@.take(i as int)),
            decreases self.players.len() - i,
        {
            assert(self.players@.take(i + 1).drop_last() =~= self.players@.take(i as int));
            if let Some(p) = &self.players[i] {
                let ghost before = out@;
                if !p.eliminated {
                    if let Some(v) = &p.plane {
                        out.push(
                            Target {
                                player: p.id,
                                what: Hittable::Vehicle(VehicleSlot::Plane),
                                pos: v.mv.pos,
                                radius: self.rules.plane_radius,
                            },
                        );
                    }
                }
                assert(out@ =~= before + air_targets_of(&self.rules, *p));
            }
            i = i + 1;
        }
        assert(self.players@.take(self.players@.len() as int) =~= self.players@);
        out
    }

    /// Takes a hit off an emplacement. `hull` is what is left of it, never less
    /// than nothing.
    ///
    /// An emplacement has no shield to flash and nothing to follow, so a hit on
    /// one is only ever the static blast the missile already reported.
    pub fn damage_sentinel(&mut self, player: u8, hull: Real)
        requires
            old(self).wf(),
        ensures
            old(self).player_spec(player) is Some && old(self).player_spec(player)->0.sentinel.rebuild_timer
                <= 0 ==> {
                let s = final(self).players@[player as int]->0.sentinel;
                &&& final(self).players@[player as int] is Some
                &&& s.hull == hull
                &&& hull <= 0 ==> s.rebuild_timer == old(self).rules.sentinel_rebuild
                &&& hull > 0 ==> s.rebuild_timer == old(
                    self,
                ).player_spec(player)->0.sentinel.rebuild_timer
            },
            final(self).wf(),
            *final(self) == (Game {
                players: final(self).players,
                events: final(self).events,
                ..*old(self)
            }),
            sentinel_paid(old(self), final(self), player, hull),
    {
        let rebuild: Real = self.rules.sentinel_rebuild;
        let mut down: bool = false;
        if let Some(p) = self.player_mut(player) {
            if p.sentinel.standing() {
                p.sentinel.hull = hull;
                if hull <= 0 {
                    p.sentinel.rebuild_timer = rebuild;
                    p.sentinel.gun_cooldown = 0;
                    down = true;
                }
            }
        }
        if down {
            self.events.push(GameEvent::SentinelDestroyed { player });
        }
    }

    /// Takes a hit off a vehicle.
    pub fn damage_vehicle(
        &mut self,
        player: u8,
        slot: VehicleSlot,
        blow: Blow,
        attacker: u8,
        bearing: Real,
    )
        requires
            old(self).wf(),
        ensures
            forall|i: int|
                0 <= i < old(self).players@.len() && old(self).players@[i] is Some ==> {
                    let (p, q) = (old(self).players@[i]->0, (#[trigger] final(self).players@[i])->0);
                    &&& final(self).players@[i] is Some
                    &&& i != player ==> q == p
                    &&& p.tank is Some && q.tank is Some ==> q.tank->0.cargo == p.tank->0.cargo
                    &&& p.miner is Some ==> q.miner is Some && q.miner->0.cargo == p.miner->0.cargo
                    &&& p.plane is Some && q.plane is Some ==> q.plane->0.cargo == p.plane->0.cargo
                    &&& slot != VehicleSlot::Tank || blow.hull > 0 ==> (q.tank is Some <==> p.tank is Some)
                    &&& slot != VehicleSlot::Plane || blow.hull > 0 ==> (q.plane is Some
                        <==> p.plane is Some)
                    &&& i == player && slot == VehicleSlot::Miner && p.miner is Some && blow.hull <= 0
                        ==> q.miner->0.disabled
                },
            final(self).wf(),
            damage_outcome(old(self), final(self), player, slot, blow, attacker, bearing),
    {
        let mut flash: Option<Vec2> = None;
        let mut lost: bool = false;
        if let Some(p) = self.player_mut(player) {
            if let Some(v) = p.vehicle_mut(slot) {
                if v.disabled {
                    return;
                }
                v.since_damage = 0;
                // Read before the damage lands: afterwards a broken shield and
                // a shield that was already down look the same.
                if v.shield > 0 {
                    flash = Some(v.mv.pos);
                }
                v.shield = blow.shield;
                v.hull = blow.hull;
            } else {
                return;
            }
            if blow.hull <= 0 {
                lost = true;
                match slot {
                    VehicleSlot::Tank => {
                        p.tank = None;
                        p.respawn_timer = TANK_RESPAWN_DELAY;
                    },
                    VehicleSlot::Miner => {
                        if let Some(v) = p.miner.as_mut() {
                            v.disabled = true;
                            v.capture_progress = 0;
                        }
                    },
                    VehicleSlot::Plane => {
                        p.plane = None;
                        p.sortie_cooldown = SORTIE_COOLDOWN;
                    },
                }
            }
        } else {
            return;
        }
        if let Some(at) = flash {
            self.fx.push(HitFx::on_vehicle(HitKind::Shield, at, bearing, player, slot));
        }
        if lost {
            match slot {
                VehicleSlot::Tank => {
                    self.events.push(GameEvent::TankDestroyed { player, by: attacker });
                },
                VehicleSlot::Miner => {
                    self.events.push(GameEvent::MinerDisabled { player });
                },
                VehicleSlot::Plane => {},
            }
        }
    }

    /// Pays for a hit, on whatever it landed.
    pub fn strike(&mut self, hit: Hit, blow: Blow)
        requires
            old(self).wf(),
        ensures
            forall|i: int|
                0 <= i < old(self).players@.len() && i != hit.player ==> #[trigger] final(self).players@[i]
                    == old(self).players@[i],
            old(self).player_spec(hit.player) is Some ==> {
                let (p, q) = (
                    old(self).player_spec(hit.player)->0,
                    final(self).players@[hit.player as int]->0,
                );
                &&& final(self).players@[hit.player as int] is Some
                &&& hit.what == Hittable::Sentinel ==> q.tank == p.tank && q.miner == p.miner && q.plane
                    == p.plane
                &&& hit.what == Hittable::Sentinel && p.sentinel.rebuild_timer <= 0 ==> q.sentinel.hull
                    == blow.hull
                &&& hit.what != Hittable::Sentinel ==> q.sentinel == p.sentinel
                &&& hit.what == Hittable::Vehicle(VehicleSlot::Miner) && p.miner is Some
                    && !p.miner->0.disabled ==> q.miner is Some && q.miner->0.hull == blow.hull
                    && q.miner->0.shield == blow.shield
                &&& hit.what == Hittable::Vehicle(VehicleSlot::Tank) && p.tank is Some && !p.tank->0.disabled
                    ==> (q.tank is Some <==> blow.hull > 0) && (q.tank is Some ==> q.tank->0.hull
                    == blow.hull && q.tank->0.shield == blow.shield)
                &&& hit.what == Hittable::Vehicle(VehicleSlot::Plane) && p.plane is Some
                    && !p.plane->0.disabled ==> (q.plane is Some <==> blow.hull > 0) && (q.plane is Some
                    ==> q.plane->0.hull == blow.hull && q.plane->0.shield == blow.shield)
            },
            final(self).wf(),
            strike_outcome(old(self), final(self), hit, blow),
    {
        match hit.what {
            Hittable::Vehicle(slot) => {
                self.damage_vehicle(hit.player, slot, blow, hit.attacker, hit.bearing);
            },
            Hittable::Sentinel => {
                self.damage_sentinel(hit.player, blow.hull);
            },
        }
    }
}

/// The aircraft is not something a gun on the ground can be pointed at.
pub proof fn lemma_ground_targets_hold_no_aircraft(rules: &Rules, players: Seq<Option<Player>>)
    ensures
        forall|i: int|
            0 <= i < ground_targets(rules, players).len() ==> (#[trigger] ground_targets(
                rules,
                players,
            )[i]).what != Hittable::Vehicle(VehicleSlot::Plane),
    decreases players.len(),
{
    if players.len() > 0 {
        lemma_ground_targets_hold_no_aircraft(rules, players.drop_last());
    }
}

/// A hit moves nothing: whatever is still there is where it was, going as fast.
pub proof fn lemma_a_hit_moves_nothing(p: Player, slot: VehicleSlot, blow: Blow, other: VehicleSlot)
    requires
        can_be_hurt(p, slot),
        wounded(p, slot, blow).vehicle_spec(other) is Some,
    ensures
        p.vehicle_spec(other) is Some,
        wounded(p, slot, blow).vehicle_spec(other)->0.mv == p.vehicle_spec(other)->0.mv,
        wounded(p, slot, blow).eliminated == p.eliminated,
{
}

/// A wreck takes nothing: a hit on one changes nothing at all.
pub proof fn lemma_a_wreck_takes_nothing(
    before: &Game,
    after: &Game,
    player: u8,
    slot: VehicleSlot,
    blow: Blow,
    attacker: u8,
    bearing: Real,
)
    requires
        before.player_spec(player) is Some,
        before.player_spec(player)->0.vehicle_spec(slot) is Some,
        before.player_spec(player)->0.vehicle_spec(slot)->0.disabled,
        vehicle_paid(before, after, player, slot, blow, attacker, bearing),
    ensures
        after.players@ =~= before.players@,
        after.events@ =~= before.events@,
        after.fx@ =~= before.fx@,
{
}

/// Nothing but aircraft is up there to be shot at.
pub proof fn lemma_air_targets_are_aircraft(rules: &Rules, players: Seq<Option<Player>>)
    ensures
        forall|i: int|
            0 <= i < air_targets(rules, players).len() ==> (#[trigger] air_targets(
                rules,
                players,
            )[i]).what == Hittable::Vehicle(VehicleSlot::Plane),
    decreases players.len(),
{
    if players.len() > 0 {
        lemma_air_targets_are_aircraft(rules, players.drop_last());
    }
}

/// A player off the field has nothing on it to hit.
pub proof fn lemma_nothing_of_the_eliminated_is_a_target(
    rules: &Rules,
    players: Seq<Option<Player>>,
    id: u8,
)
    requires
        slots_wf(players),
        (id as int) < players.len(),
        players[id as int] is Some ==> players[id as int]->0.eliminated,
    ensures
        forall|i: int|
            0 <= i < ground_targets(rules, players).len() ==> (#[trigger] ground_targets(
                rules,
                players,
            )[i]).player != id,
        forall|i: int|
            0 <= i < air_targets(rules, players).len() ==> (#[trigger] air_targets(
                rules,
                players,
            )[i]).player != id,
{
    lemma_targets_come_from_players(rules, players, id);
}

proof fn lemma_targets_come_from_players(rules: &Rules, players: Seq<Option<Player>>, id: u8)
    requires
        forall|k: int|
            0 <= k < players.len() && (#[trigger] players[k]) is Some && players[k]->0.id == id
                ==> players[k]->0.eliminated,
    ensures
        forall|i: int|
            0 <= i < ground_targets(rules, players).len() ==> (#[trigger] ground_targets(
                rules,
                players,
            )[i]).player != id,
        forall|i: int|
            0 <= i < air_targets(rules, players).len() ==> (#[trigger] air_targets(
                rules,
                players,
            )[i]).player != id,
    decreases players.len(),
{
    if players.len() > 0 {
        let shorter = players.drop_last();
        assert forall|k: int|
            #![trigger shorter[k]]
            0 <= k < shorter.len() && shorter[k] is Some && shorter[k]->0.id == id implies shorter[k]->0.eliminated by {
            assert(players[k] == shorter[k]);
        }
        lemma_targets_come_from_players(rules, shorter, id);
        assert(players[players.len() - 1] == players.last());
    }
}

/// What a hit does, on whatever vehicle it lands: the gauges go to what the blow
/// leaves, and the load stays aboard. A tank shot to nothing is gone for a
/// while, an aircraft is gone until the next sortie, and a miner is never
/// destroyed: it is disabled where it stands, with exactly the cargo it carried,
/// for its owner to rescue or its captor to seize.
pub proof fn lemma_a_hit_keeps_the_load(
    before: &Game,
    after: &Game,
    player: u8,
    slot: VehicleSlot,
    blow: Blow,
    attacker: u8,
    bearing: Real,
)
    requires
        damage_outcome(before, after, player, slot, blow, attacker, bearing),
        before.player_spec(player) is Some,
        before.player_spec(player)->0.vehicle_spec(slot) is Some,
        !before.player_spec(player)->0.vehicle_spec(slot)->0.disabled,
    ensures
        after.player_spec(player) is Some,
        forall|i: int|
            0 <= i < before.players@.len() && i != player ==> #[trigger] after.players@[i]
                == before.players@[i],
        ({
            let (p, q) = (before.player_spec(player)->0, after.player_spec(player)->0);
            let v = p.vehicle_spec(slot)->0;
            &&& q == Player {
                tank: q.tank,
                miner: q.miner,
                plane: q.plane,
                respawn_timer: q.respawn_timer,
                sortie_cooldown: q.sortie_cooldown,
                ..p
            }
            &&& slot != VehicleSlot::Tank ==> q.tank == p.tank && q.respawn_timer
                == p.respawn_timer
            &&& slot != VehicleSlot::Miner ==> q.miner == p.miner
            &&& slot != VehicleSlot::Plane ==> q.plane == p.plane && q.sortie_cooldown
                == p.sortie_cooldown
            &&& q.tank is Some && p.tank is Some ==> q.tank->0.cargo == p.tank->0.cargo
            &&& q.miner is Some && p.miner is Some ==> q.miner->0.cargo == p.miner->0.cargo
            &&& q.plane is Some && p.plane is Some ==> q.plane->0.cargo == p.plane->0.cargo
            &&& blow.hull > 0 ==> {
                let w = q.vehicle_spec(slot)->0;
                &&& q.vehicle_spec(slot) is Some
                &&& w.shield == blow.shield && w.hull == blow.hull && w.since_damage == 0
                &&& w.mv == v.mv && w.turret_yaw == v.turret_yaw && w.cargo == v.cargo
                &&& w.fuel == v.fuel && w.capture_progress == v.capture_progress && !w.disabled
                &&& w.gun_cooldown == v.gun_cooldown && w.missile_cooldown == v.missile_cooldown
                &&& q.respawn_timer == p.respawn_timer && q.sortie_cooldown == p.sortie_cooldown
            }
            &&& blow.hull <= 0 && slot == VehicleSlot::Tank ==> q.tank is None
                && q.respawn_timer == TANK_RESPAWN_DELAY
            &&& blow.hull <= 0 && slot == VehicleSlot::Plane ==> q.plane is None
                && q.sortie_cooldown == SORTIE_COOLDOWN
            &&& blow.hull <= 0 && slot == VehicleSlot::Miner ==> {
                let w = q.miner->0;
                &&& q.miner is Some
                &&& w.disabled && w.capture_progress == 0
                &&& w.cargo == v.cargo && w.mv == v.mv && w.turret_yaw == v.turret_yaw
                &&& w.shield == blow.shield && w.hull == blow.hull && w.since_damage == 0
            }
        }),
{
}

/// What is told and drawn of a hit: a tank lost is charged to whoever shot it, a
/// miner lost is told of, and a shield that was up flashes on the face that was
/// struck, for everybody to see it on the vehicle it is on.
pub proof fn lemma_a_hit_is_told(
    before: &Game,
    after: &Game,
    player: u8,
    slot: VehicleSlot,
    blow: Blow,
    attacker: u8,
    bearing: Real,
)
    requires
        damage_outcome(before, after, player, slot, blow, attacker, bearing),
        before.player_spec(player) is Some,
        before.player_spec(player)->0.id == player,
        before.player_spec(player)->0.vehicle_spec(slot) is Some,
        !before.player_spec(player)->0.vehicle_spec(slot)->0.disabled,
    ensures
        ({
            let v = before.player_spec(player)->0.vehicle_spec(slot)->0;
            &&& blow.hull > 0 || slot == VehicleSlot::Plane ==> after.events@ =~= before.events@
            &&& blow.hull <= 0 && slot == VehicleSlot::Tank ==> after.events@
                =~= before.events@.push(GameEvent::TankDestroyed { player, by: attacker })
            &&& blow.hull <= 0 && slot == VehicleSlot::Miner ==> after.events@
                =~= before.events@.push(GameEvent::MinerDisabled { player })
            &&& v.shield <= 0 ==> after.fx@ =~= before.fx@
            &&& v.shield > 0 ==> {
                let flash = after.fx@.last();
                &&& after.fx@.len() == before.fx@.len() + 1
                &&& after.fx@.take(before.fx@.len() as int) =~= before.fx@
                &&& flash.kind == HitKind::Shield
                &&& flash.pos == v.mv.pos && flash.angle == bearing
                &&& flash.struck == Some((player, slot))
            }
        }),
{
}

/// An emplacement that is shot takes the hit on its hull, and one shot to
/// nothing is rubble until it is rebuilt. Rubble takes nothing.
pub proof fn lemma_an_emplacement_is_worn_down(before: &Game, after: &Game, player: u8, hull: Real)
    requires
        sentinel_paid(before, after, player, hull),
        before.player_spec(player) is Some,
    ensures
        after.player_spec(player) is Some,
        forall|i: int|
            0 <= i < before.players@.len() && i != player ==> #[trigger] after.players@[i]
                == before.players@[i],
        ({
            let (p, q) = (before.player_spec(player)->0, after.player_spec(player)->0);
            &&& q == Player { sentinel: q.sentinel, ..p }
            &&& p.sentinel.rebuild_timer > 0 ==> q.sentinel == p.sentinel && after.events@
                =~= before.events@
            &&& p.sentinel.rebuild_timer <= 0 ==> q.sentinel.hull == hull
                && q.sentinel.turret_yaw == p.sentinel.turret_yaw && q.sentinel.cursor
                == p.sentinel.cursor
            &&& p.sentinel.rebuild_timer <= 0 && hull > 0 ==> q.sentinel.rebuild_timer
                == p.sentinel.rebuild_timer && q.sentinel.gun_cooldown == p.sentinel.gun_cooldown
                && after.events@ =~= before.events@
            &&& p.sentinel.rebuild_timer <= 0 && hull <= 0 ==> q.sentinel.rebuild_timer
                == before.rules.sentinel_rebuild && q.sentinel.gun_cooldown == 0 && after.events@
                =~= before.events@.push(GameEvent::SentinelDestroyed { player })
        }),
{
}

/// Everything standing on the ground can be shot at, where it stands and as wide
/// as it is.
pub proof fn lemma_everything_standing_is_a_target(
    rules: &Rules,
    players: Seq<Option<Player>>,
    i: int,
)
    requires
        0 <= i < players.len(),
        players[i] is Some,
        !players[i]->0.eliminated,
    ensures
        ({
            let p = players[i]->0;
            let all = ground_targets(rules, players);
            &&& p.tank is Some ==> all.contains(
                Target {
                    player: p.id,
                    what: Hittable::Vehicle(VehicleSlot::Tank),
                    pos: p.tank->0.mv.pos,
                    radius: rules.tank_radius,
                },
            )
            &&& p.miner is Some ==> all.contains(
                Target {
                    player: p.id,
                    what: Hittable::Vehicle(VehicleSlot::Miner),
                    pos: p.miner->0.mv.pos,
                    radius: rules.miner_radius,
                },
            )
            &&& p.sentinel.rebuild_timer <= 0 ==> all.contains(
                Target {
                    player: p.id,
                    what: Hittable::Sentinel,
                    pos: rules.corners@[p.id as int].post,
                    radius: rules.sentinel_radius,
                },
            )
            &&& p.plane is Some ==> air_targets(rules, players).contains(
                Target {
                    player: p.id,
                    what: Hittable::Vehicle(VehicleSlot::Plane),
                    pos: p.plane->0.mv.pos,
                    radius: rules.plane_radius,
                },
            )
        }),
    decreases players.len(),
{
    let p = players[i]->0;
    let tank = Target {
        player: p.id,
        what: Hittable::Vehicle(VehicleSlot::Tank),
        pos: p.tank->0.mv.pos,
        radius: rules.tank_radius,
    };
    let miner = Target {
        player: p.id,
        what: Hittable::Vehicle(VehicleSlot::Miner),
        pos: p.miner->0.mv.pos,
        radius: rules.miner_radius,
    };
    let post = Target {
        player: p.id,
        what: Hittable::Sentinel,
        pos: rules.corners@[p.id as int].post,
        radius: rules.sentinel_radius,
    };
    let plane = Target {
        player: p.id,
        what: Hittable::Vehicle(VehicleSlot::Plane),
        pos: p.plane->0.mv.pos,
        radius: rules.plane_radius,
    };
    let ground = ground_targets(rules, players.drop_last());
    let air = air_targets(rules, players.drop_last());
    let all = ground_targets(rules, players);
    let up = air_targets(rules, players);
    if i == players.len() - 1 {
        let own = ground_targets_of(rules, p);
        assert(all == ground + own);
        if p.tank is Some {
            assert(own[0] == tank);
            assert(all[ground.len() as int] == tank);
        }
        if p.miner is Some {
            let k: int = if p.tank is Some {
                1
            } else {
                0
            };
            assert(own[k] == miner);
            assert(all[ground.len() + k] == miner);
        }
        if p.sentinel.rebuild_timer <= 0 {
            assert(own.last() == post);
            assert(all[all.len() - 1] == post);
        }
        if p.plane is Some {
            assert(up[up.len() - 1] == plane);
        }
    } else {
        assert(players.drop_last()[i] == players[i]);
        lemma_everything_standing_is_a_target(rules, players.drop_last(), i);
        if p.tank is Some {
            lemma_still_there(ground, all, tank);
        }
        if p.miner is Some {
            lemma_still_there(ground, all, miner);
        }
        if p.sentinel.rebuild_timer <= 0 {
            lemma_still_there(ground, all, post);
        }
        if p.plane is Some {
            lemma_still_there(air, up, plane);
        }
    }
}

proof fn lemma_still_there(before: Seq<Target>, after: Seq<Target>, t: Target)
    requires
        before.len() <= after.len(),
        forall|k: int| 0 <= k < before.len() ==> after[k] == #[trigger] before[k],
        before.contains(t),
    ensures
        after.contains(t),
{
    let k = choose|k: int| 0 <= k < before.len() && before[k] == t;
    assert(after[k] == t);
}

/// What can be shot at is really there: it is somebody's on the field, standing
/// at that very place.
pub proof fn lemma_a_target_is_there(rules: &Rules, players: Seq<Option<Player>>, t: Target)
    requires
        ground_targets(rules, players).contains(t),
    ensures
        exists|i: int|
            #![trigger players[i]]
            0 <= i < players.len() && players[i] is Some && !players[i]->0.eliminated
                && players[i]->0.id == t.player && match t.what {
                Hittable::Vehicle(VehicleSlot::Tank) => players[i]->0.tank is Some
                    && players[i]->0.tank->0.mv.pos == t.pos && t.radius == rules.tank_radius,
                Hittable::Vehicle(VehicleSlot::Miner) => players[i]->0.miner is Some
                    && players[i]->0.miner->0.mv.pos == t.pos && t.radius == rules.miner_radius,
                Hittable::Vehicle(VehicleSlot::Plane) => false,
                Hittable::Sentinel => players[i]->0.sentinel.rebuild_timer <= 0 && t.radius
                    == rules.sentinel_radius && t.pos == rules.corners@[t.player as int].post,
            },
    decreases players.len(),
{
    if players.len() > 0 {
        let before = ground_targets(rules, players.drop_last());
        let all = ground_targets(rules, players);
        let k = choose|k: int| 0 <= k < all.len() && all[k] == t;
        if k < before.len() {
            assert(before[k] == t);
            lemma_a_target_is_there(rules, players.drop_last(), t);
            let i = choose|i: int|
                #![trigger players.drop_last()[i]]
                0 <= i < players.drop_last().len() && players.drop_last()[i] is Some
                    && !players.drop_last()[i]->0.eliminated && players.drop_last()[i]->0.id
                    == t.player && match t.what {
                    Hittable::Vehicle(VehicleSlot::Tank) => players.drop_last()[i]->0.tank is Some
                        && players.drop_last()[i]->0.tank->0.mv.pos == t.pos && t.radius
                        == rules.tank_radius,
                    Hittable::Vehicle(VehicleSlot::Miner) => players.drop_last()[i]->0.miner is Some
                        && players.drop_last()[i]->0.miner->0.mv.pos == t.pos && t.radius
                        == rules.miner_radius,
                    Hittable::Vehicle(VehicleSlot::Plane) => false,
                    Hittable::Sentinel => players.drop_last()[i]->0.sentinel.rebuild_timer <= 0
                        && t.radius == rules.sentinel_radius && t.pos
                        == rules.corners@[t.player as int].post,
                };
            assert(players[i] == players.drop_last()[i]);
        } else {
            let p = players.last()->0;
            assert(players[players.len() - 1] == players.last());
            let own = ground_targets_of(rules, p);
            assert(own[k - before.len()] == t);
        }
    }
}

} // verus!
