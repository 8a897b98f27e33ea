//! The chase camera, and the overview it lifts to.
//!
//! The overview is a high, free camera over the whole field. It comes up on its
//! own for the minute a player is off the field after losing a miner, since
//! there is nothing to chase, and can be raised at any other time by hand.

use vstd::prelude::*;

use crate::controls::fleet_of;
use crate::measure::{Real, Vec2};
use crate::protocol::{Fleet, VehicleSlot};
use crate::state::{RenderPlayer, RenderVehicle};

verus! {

/// The heights the overview opens at.
#[derive(Clone, Copy, Debug, PartialEq, Eq, Structural)]
pub struct Heights {
    /// Raised by hand: enough of the field to plan with.
    pub working: Real,
    /// Raised because there is nothing left on the field: the whole of it.
    pub whole: Real,
}

/// The free camera: where it is looking and how high it is.
#[derive(Clone, Copy, Debug, PartialEq, Eq, Structural)]
pub struct Overview {
    /// Raised deliberately, as opposed to automatically because there is nothing
    /// to follow.
    pub toggled: bool,
    /// Whether it is up at all this frame.
    pub active: bool,
    pub centre: Vec2,
    pub height: Real,
}

/// The vehicle a player is on: the one being driven, or the next there is.
pub open spec fn subject_spec(me: Option<RenderPlayer>, driving: VehicleSlot) -> Option<
    (RenderVehicle, VehicleSlot),
> {
    match me {
        Some(p) => {
            let slot = driving.or_next_spec(fleet_of(p));
            match p.vehicle_spec(slot) {
                Some(v) => Some((v, slot)),
                None => None,
            }
        },
        None => None,
    }
}

/// The vehicle a player is on, and which it is.
pub fn subject(me: Option<&RenderPlayer>, driving: VehicleSlot) -> (r: Option<
    (RenderVehicle, VehicleSlot),
>)
    ensures
        me is None ==> r is None,
        me is Some && me->0.tank is None && me->0.miner is None && me->0.plane is None ==> r is None,
        me is Some && (me->0.tank is Some || me->0.miner is Some || me->0.plane is Some) ==> r is Some,
        r is Some ==> match (r->0).1 {
            VehicleSlot::Tank => me->0.tank == Some((r->0).0),
            VehicleSlot::Miner => me->0.miner == Some((r->0).0),
            VehicleSlot::Plane => me->0.plane == Some((r->0).0),
        },
        me is Some && (driving == VehicleSlot::Tank && me->0.tank is Some || driving
            == VehicleSlot::Miner && me->0.miner is Some || driving == VehicleSlot::Plane
            && me->0.plane is Some) ==> r is Some && (r->0).1 == driving,
        r == subject_spec(
            match me {
                Some(p) => Some(*p),
                None => None,
            },
            driving,
        ),
{
    match me {
        Some(p) => {
            let fleet = Fleet {
                tank: p.tank.is_some(),
                miner: p.miner.is_some(),
                plane: p.plane.is_some(),
            };
            let slot = driving.or_next(fleet);
            match p.vehicle(slot) {
                Some(v) => Some((*v, slot)),
                None => None,
            }
        },
        None => None,
    }
}

/// Where the camera is.
#[derive(Clone, Copy, Debug, PartialEq, Eq, Structural)]
pub enum Shot {
    /// Looking down at wherever it has been panned to.
    Overview { centre: Vec2, height: Real },
    /// Behind a vehicle. An aircraft is followed at its own height, so the
    /// camera rides with it rather than watching it from the grass.
    Chase { pos: Vec2, yaw: Real, lift: Real },
    /// Over the middle of the field: there is nothing to follow.
    Field,
}

impl Overview {
    /// What raising or lowering it by hand does. It opens at a known height, and
    /// over whatever was being driven, so raising the camera does not also lose
    /// the player's place.
    pub open spec fn toggled_spec(self, place: Option<Vec2>, heights: Heights) -> Overview {
        let opening = !self.toggled && !self.active;
        Overview {
            toggled: !self.toggled,
            height: if opening {
                heights.working
            } else {
                self.height
            },
            centre: match place {
                Some(at) if opening => at,
                _ => self.centre,
            },
            ..self
        }
    }

    /// What this frame makes of it. A player waiting to come back sees the
    /// overview whether they asked for it or not, opening on their own corner --
    /// that is where they are about to come back.
    pub open spec fn raised_spec(
        self,
        key: bool,
        waiting: bool,
        place: Option<Vec2>,
        base: Vec2,
        heights: Heights,
    ) -> Overview {
        let by_hand = if key {
            self.toggled_spec(place, heights)
        } else {
            self
        };
        let active = by_hand.toggled || waiting;
        if active && !self.active && waiting {
            Overview { active, centre: base, height: heights.whole, ..by_hand }
        } else {
            Overview { active, ..by_hand }
        }
    }

    /// Raises and lowers the overview. `key` is the overview key, just pressed;
    /// `place` where the player's vehicle is, and `base` their own corner.
    pub fn raise(
        &mut self,
        menu_open: bool,
        key: bool,
        waiting: bool,
        place: Option<Vec2>,
        base: Vec2,
        heights: Heights,
    )
        ensures
            final(self).toggled <==> old(self).toggled != (key && !menu_open),
            final(self).active <==> final(self).toggled || waiting,
            waiting && !old(self).active ==> final(self).centre == base && final(self).height
                == heights.whole,
            !waiting && !old(self).active && !old(self).toggled && key && !menu_open ==> final(self).height
                == heights.working && (place is Some ==> final(self).centre == place->0) && (place is None
                ==> final(self).centre == old(self).centre),
            old(self).active ==> final(self).centre == old(self).centre && final(self).height == old(
                self,
            ).height,
            !waiting && !(key && !menu_open) ==> final(self).centre == old(self).centre && final(self).height == old(self).height,
            *final(self) == old(self).raised_spec(
                key && !menu_open,
                waiting,
                place,
                base,
                heights,
            ),
    {
        if !menu_open && key {
            self.toggled = !self.toggled;
            if self.toggled && !self.active {
                self.height = heights.working;
                if let Some(at) = place {
                    self.centre = at;
                }
            }
        }
        let was_active = self.active;
        self.active = self.toggled || waiting;
        if self.active && !was_active && waiting {
            self.centre = base;
            self.height = heights.whole;
        }
    }

    /// Whether the mouse pans and zooms. Only a focused window is being scrolled
    /// at on purpose.
    pub fn reads_mouse(&self, menu_open: bool, focused: bool) -> (r: bool)
        ensures
            r == (self.active && !menu_open && focused),
    {
        self.active && !menu_open && focused
    }

    /// Frames the view anew: how high it is once it has been zoomed, and where
    /// it looks once it has been dragged, both held to the field.
    pub fn frame(&mut self, centre: Vec2, height: Real)
        ensures
            *final(self) == (Overview { centre, height, ..*old(self) }),
    {
        self.centre = centre;
        self.height = height;
    }

    pub open spec fn shot_spec(self, me: Option<RenderPlayer>, driving: VehicleSlot) -> Shot {
        if self.active {
            Shot::Overview { centre: self.centre, height: self.height }
        } else {
            match subject_spec(me, driving) {
                Some(seen) => Shot::Chase {
                    pos: seen.0.pos,
                    yaw: seen.0.yaw,
                    lift: if seen.1 == VehicleSlot::Plane {
                        seen.0.alt
                    } else {
                        0
                    },
                },
                None => Shot::Field,
            }
        }
    }

    /// Where the camera is: the overview while it is up, behind whichever
    /// vehicle is being driven, or over the field.
    pub fn shot(&self, me: Option<&RenderPlayer>, driving: VehicleSlot) -> (r: Shot)
        ensures
            self.active ==> r == (Shot::Overview { centre: self.centre, height: self.height }),
            !self.active && me is None ==> r == Shot::Field,
            !self.active && me is Some && driving == VehicleSlot::Tank && me->0.tank is Some ==> r == (
            Shot::Chase { pos: me->0.tank->0.pos, yaw: me->0.tank->0.yaw, lift: 0 }),
            !self.active && me is Some && driving == VehicleSlot::Miner && me->0.miner is Some ==> r == (
            Shot::Chase { pos: me->0.miner->0.pos, yaw: me->0.miner->0.yaw, lift: 0 }),
            !self.active && me is Some && driving == VehicleSlot::Plane && me->0.plane is Some ==> r == (
            Shot::Chase {
                pos: me->0.plane->0.pos,
                yaw: me->0.plane->0.yaw,
                lift: me->0.plane->0.alt,
            }),
            r == self.shot_spec(
                match me {
                    Some(p) => Some(*p),
                    None => None,
                },
                driving,
            ),
    {
        if self.active {
            return Shot::Overview { centre: self.centre, height: self.height };
        }
        match subject(me, driving) {
            Some((v, slot)) => Shot::Chase {
                pos: v.pos,
                yaw: v.yaw,
                lift: if slot == VehicleSlot::Plane {
                    v.alt
                } else {
                    0
                },
            },
            None => Shot::Field,
        }
    }
}

/// A player waiting to come back has the overview up, and lowering it by hand
/// does not take it away.
pub proof fn lemma_waiting_keeps_the_overview_up(
    o: Overview,
    key: bool,
    place: Option<Vec2>,
    base: Vec2,
    heights: Heights,
)
    ensures
        o.raised_spec(key, true, place, base, heights).active,
{
}

} // verus!
