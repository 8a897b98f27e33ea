//! Turning keyboard and mouse into the one input frame sent each tick.
//!
//! Continuous controls (throttle, steering, firing) are sampled every frame and
//! consumed by the fixed-rate sender. Discrete ones (switching vehicles, the
//! build menu, purchases) are handled as they are sampled, because the sender
//! can run twice or not at all in a frame and would double or drop an edge.

use vstd::prelude::*;

use crate::measure::{gathered, listed_if, Real, HALF, MINUS_HALF, MINUS_ONE, ONE};
use crate::protocol::{Fleet, InputFrame, PowerUp, VehicleSlot, POWERUPS};
use crate::state::RenderPlayer;

verus! {

/// What is held down, and what has just been pressed.
#[derive(Debug)]
pub struct Keys {
    /// Held: `W` or up, `S` or down, `A` or left, `D` or right.
    pub forward: bool,
    pub back: bool,
    pub left: bool,
    pub right: bool,
    /// Held: `Space` and `F`, and the two mouse buttons.
    pub space: bool,
    pub fire: bool,
    pub mouse_left: bool,
    pub mouse_right: bool,
    /// Held: either Alt.
    pub alt: bool,
    /// Just pressed: `C`, `G`, `Tab` and `B`.
    pub cheat: bool,
    pub launch: bool,
    pub tab: bool,
    pub build: bool,
    /// Just pressed: the digits, from `1`, one for each upgrade.
    pub digits: Vec<bool>,
}

/// Where the cursor is over the ground, seen from the vehicle being driven.
#[derive(Clone, Copy, Debug, PartialEq, Eq, Structural)]
pub struct Bearing {
    pub angle: Real,
    /// How far off it is, squared.
    pub reach: Real,
}

/// How much of the controls is live, given what else is on screen.
#[derive(Clone, Copy, Debug, PartialEq, Eq, Structural)]
pub struct Controls {
    /// Whether the vehicle can be driven and fired at all.
    pub live: bool,
    /// Whether the mouse buttons pull the triggers. The keyboard ones always do
    /// while the controls are live.
    pub mouse_fires: bool,
}

/// Works out the two answers above.
///
/// Only the pause menu takes the controls away. The overview does not: an
/// aircraft keeps flying whether or not you are watching it. Up there the mouse
/// belongs to the camera and the panels, so the triggers come off it.
pub fn controls_for(menu_open: bool, overview_active: bool) -> (r: Controls)
    ensures
        r.live == !menu_open,
        r.mouse_fires == (!menu_open && !overview_active),
{
    Controls { live: !menu_open, mouse_fires: !menu_open && !overview_active }
}

/// What has to be asked of the server.
#[derive(Debug)]
pub struct Wishes {
    pub toggle_cheats: bool,
    pub launch: bool,
    pub purchases: Vec<PowerUp>,
    /// The vehicle prediction is to follow from now on.
    pub follow: Option<VehicleSlot>,
}

pub struct LocalInput {
    /// Monotonic client tick; the server echoes it back for reconciliation.
    pub tick: u32,
    pub controlling: VehicleSlot,
    pub throttle: Real,
    pub steer: Real,
    /// The yoke, in the air.
    pub climb: Real,
    /// The throttle detent last selected in the air. The aircraft holds it.
    pub detent: Real,
    pub aim: Real,
    pub fire_primary: bool,
    pub fire_secondary: bool,
    pub build_menu: bool,
    /// A sortie has been asked for and has not arrived yet.
    ///
    /// The launch key cannot hand over the controls on the spot, because the
    /// aircraft does not exist here until the server says so. So the intent is
    /// remembered and spent the moment the sortie shows up.
    pub awaiting_sortie: bool,
    /// The frame sent this tick, kept so prediction applies exactly what was
    /// sent.
    pub current: InputFrame,
}

/// One of two opposed keys: forward of centre, back of it, or centred.
pub open spec fn axis_spec(positive: bool, negative: bool) -> Real {
    if positive && !negative {
        ONE
    } else if negative && !positive {
        MINUS_ONE
    } else {
        0
    }
}

fn axis(positive: bool, negative: bool) -> (r: Real)
    ensures
        positive && !negative <==> r == ONE,
        negative && !positive <==> r == MINUS_ONE,
        positive == negative <==> r == 0,
        r == axis_spec(positive, negative),
{
    if positive && !negative {
        ONE
    } else if negative && !positive {
        MINUS_ONE
    } else {
        0
    }
}

/// What a detent stands for: the first is slowest, the middle one the plain
/// cruise, and the last is full.
pub open spec fn detent_value(i: int) -> Real {
    if i == 0 {
        MINUS_ONE
    } else if i == 1 {
        MINUS_HALF
    } else if i == 2 {
        0
    } else if i == 3 {
        HALF
    } else {
        ONE
    }
}

/// The first detent key just pressed.
pub open spec fn pressed_detent(digits: Seq<bool>) -> Option<int> {
    if digits[0] {
        Some(0)
    } else if digits[1] {
        Some(1)
    } else if digits[2] {
        Some(2)
    } else if digits[3] {
        Some(3)
    } else if digits[4] {
        Some(4)
    } else {
        None
    }
}

fn detent(digits: &Vec<bool>, held: Real) -> (r: Real)
    requires
        digits@.len() == POWERUPS,
    ensures
        digits@[0] ==> r == MINUS_ONE,
        !digits@[0] && digits@[1] ==> r == MINUS_HALF,
        !digits@[0] && !digits@[1] && digits@[2] ==> r == 0,
        !digits@[0] && !digits@[1] && !digits@[2] && digits@[3] ==> r == HALF,
        !digits@[0] && !digits@[1] && !digits@[2] && !digits@[3] && digits@[4] ==> r == ONE,
        !digits@[0] && !digits@[1] && !digits@[2] && !digits@[3] && !digits@[4] ==> r == held,
        r == match pressed_detent(digits@) {
            Some(i) => detent_value(i),
            None => held,
        },
{
    if digits[0] {
        MINUS_ONE
    } else if digits[1] {
        MINUS_HALF
    } else if digits[2] {
        0
    } else if digits[3] {
        HALF
    } else if digits[4] {
        ONE
    } else {
        held
    }
}

pub open spec fn fleet_of(me: RenderPlayer) -> Fleet {
    Fleet { tank: me.tank is Some, miner: me.miner is Some, plane: me.plane is Some }
}

/// The digits just pressed, in order.
pub open spec fn pressed_digits(digits: Seq<bool>, n: nat) -> Seq<int> {
    gathered(n, |i: int| listed_if(digits[i], i))
}

/// The upgrades whose keys have just been pressed.
fn buys(keys: &Keys) -> (r: Vec<PowerUp>)
    requires
        keys.digits@.len() == POWERUPS,
    ensures
        forall|k: int|
            0 <= k < r@.len() ==> keys.digits@[(#[trigger] r@[k]).index_spec()],
        forall|p: PowerUp| keys.digits@[p.index_spec()] ==> #[trigger] r@.contains(p),
        r@.len() == pressed_digits(keys.digits@, keys.digits@.len()).len(),
        forall|k: int|
            0 <= k < r@.len() ==> (#[trigger] r@[k]).index_spec() == pressed_digits(
                keys.digits@,
                keys.digits@.len(),
            )[k],
{
    let mut out: Vec<PowerUp> = Vec::new();
    let mut i: usize = 0;
    while i < keys.digits.len()
        invariant
            i <= keys.digits@.len(),
            keys.digits@.len() == POWERUPS,
            out@.len() == pressed_digits(keys.digits@, i as nat).len(),
            forall|k: int|
                0 <= k < out@.len() ==> (#[trigger] out@[k]).index_spec() == pressed_digits(
                    keys.digits@,
                    i as nat,
                )[k],
        decreases keys.digits.len() - i,
    {
        if keys.digits[i] {
            if let Some(powerup) = PowerUp::listed(i) {
                out.push(powerup);
            }
        }
        i = i + 1;
    }
    proof {
        let n = keys.digits@.len();
        let pressed = pressed_digits(keys.digits@, n);
        lemma_each_key_buys_its_own(keys.digits@, n);
        assert forall|p: PowerUp| keys.digits@[p.index_spec()] implies #[trigger] out@.contains(
            p,
        ) by {
            assert(pressed.contains(p.index_spec()));
            let k = choose|k: int| 0 <= k < pressed.len() && pressed[k] == p.index_spec();
            assert(out@[k].index_spec() == p.index_spec());
            assert(out@[k] == p);
        }
    }
    out
}

impl LocalInput {
    pub fn new() -> (r: Self)
        ensures
            r == (LocalInput {
                tick: 0,
                controlling: VehicleSlot::Tank,
                throttle: 0,
                steer: 0,
                climb: 0,
                detent: 0,
                aim: 0,
                fire_primary: false,
                fire_secondary: false,
                build_menu: false,
                awaiting_sortie: false,
                current: InputFrame::neutral(),
            }),
    {
        LocalInput {
            tick: 0,
            controlling: VehicleSlot::Tank,
            throttle: 0,
            steer: 0,
            climb: 0,
            detent: 0,
            aim: 0,
            fire_primary: false,
            fire_secondary: false,
            build_menu: false,
            awaiting_sortie: false,
            current: InputFrame::default(),
        }
    }

    /// Whether the launch key asks for a sortie: only when one can actually be
    /// granted, so that a key that would be declined does nothing rather than
    /// sending a request the server quietly drops.
    pub open spec fn asks_for_sortie(self, keys: &Keys, connected: bool, me: Option<RenderPlayer>) -> bool {
        keys.launch && connected && me is Some && me->0.plane is None
            && me->0.sortie_ready_spec()
    }

    /// Whether a sortie is still being waited for: one was asked for, it has
    /// not arrived, and nothing else has been chosen by hand since.
    pub open spec fn still_waits(self, keys: &Keys, connected: bool, me: Option<RenderPlayer>) -> bool {
        &&& self.awaiting_sortie || self.asks_for_sortie(keys, connected, me)
        &&& !(me is Some && me->0.plane is Some)
        &&& !keys.tab
    }

    /// What to drive by the end of this frame.
    ///
    /// The launch key means one thing: get me to the bomber. With a sortie up
    /// that is just a switch; one that was asked for is taken the moment it
    /// arrives. `Tab` moves on to the next vehicle there is. And a player whose
    /// vehicle is gone is put on one they have.
    pub open spec fn takes(self, keys: &Keys, connected: bool, me: Option<RenderPlayer>) -> VehicleSlot {
        match me {
            None => self.controlling,
            Some(p) => {
                let fleet = fleet_of(p);
                if !fleet.has_spec(self.controlling) {
                    self.controlling.next_available_spec(fleet)
                } else if keys.tab {
                    self.controlling.next_available_spec(fleet)
                } else if p.plane is Some && ((keys.launch && connected) || self.awaiting_sortie) {
                    VehicleSlot::Plane
                } else {
                    self.controlling
                }
            },
        }
    }

    /// The input once the held keys, the detents and the build menu's own key
    /// have been read.
    pub open spec fn driven(self, keys: &Keys, controls: Controls) -> LocalInput {
        let build_menu = if keys.build {
            !self.build_menu
        } else {
            self.build_menu
        };
        let flying = self.controlling == VehicleSlot::Plane;
        let detent = if flying && !build_menu && pressed_detent(keys.digits@) is Some {
            detent_value(pressed_detent(keys.digits@)->0)
        } else {
            self.detent
        };
        LocalInput {
            throttle: if flying {
                detent
            } else {
                axis_spec(keys.forward, keys.back)
            },
            // Push forward to go down, pull back to come up.
            climb: if flying {
                axis_spec(keys.back, keys.forward)
            } else {
                0
            },
            steer: axis_spec(keys.right, keys.left),
            detent,
            fire_primary: (controls.mouse_fires && keys.mouse_left) || keys.space,
            fire_secondary: (controls.mouse_fires && keys.mouse_right) || keys.fire,
            build_menu,
            ..self
        }
    }

    fn drive(&mut self, keys: &Keys, controls: Controls)
        requires
            keys.digits@.len() == POWERUPS,
        ensures
            final(self).build_menu <==> old(self).build_menu != keys.build,
            final(self).controlling == old(self).controlling && final(self).aim == old(self).aim,
            final(self).tick == old(self).tick && final(self).awaiting_sortie == old(
                self,
            ).awaiting_sortie,
            final(self).fire_primary <==> keys.space || (controls.mouse_fires && keys.mouse_left),
            final(self).fire_secondary <==> keys.fire || (controls.mouse_fires && keys.mouse_right),
            keys.right && !keys.left <==> final(self).steer == ONE,
            keys.left && !keys.right <==> final(self).steer == MINUS_ONE,
            keys.left == keys.right <==> final(self).steer == 0,
            old(self).controlling != VehicleSlot::Plane ==> {
                &&& final(self).climb == 0 && final(self).detent == old(self).detent
                &&& keys.forward && !keys.back <==> final(self).throttle == ONE
                &&& keys.back && !keys.forward <==> final(self).throttle == MINUS_ONE
                &&& keys.forward == keys.back <==> final(self).throttle == 0
            },
            old(self).controlling == VehicleSlot::Plane ==> {
                &&& final(self).throttle == final(self).detent
                &&& keys.back && !keys.forward <==> final(self).climb == ONE
                &&& keys.forward && !keys.back <==> final(self).climb == MINUS_ONE
                &&& keys.forward == keys.back <==> final(self).climb == 0
                &&& final(self).build_menu ==> final(self).detent == old(self).detent
                &&& !final(self).build_menu && keys.digits@[0] ==> final(self).detent == MINUS_ONE
                &&& !final(self).build_menu && !keys.digits@[0] && !keys.digits@[1] && keys.digits@[2]
                    ==> final(self).detent == 0
            },
            *final(self) == old(self).driven(keys, controls),
    {
        if keys.build {
            self.build_menu = !self.build_menu;
        }
        if self.controlling == VehicleSlot::Plane {
            if !self.build_menu {
                self.detent = detent(&keys.digits, self.detent);
            }
            self.throttle = self.detent;
            self.climb = axis(keys.back, keys.forward);
        } else {
            self.throttle = axis(keys.forward, keys.back);
            self.climb = 0;
        }
        // Turning left is negative steer.
        self.steer = axis(keys.right, keys.left);
        self.fire_primary = (controls.mouse_fires && keys.mouse_left) || keys.space;
        self.fire_secondary = (controls.mouse_fires && keys.mouse_right) || keys.fire;
    }

    fn switch(&mut self, keys: &Keys, connected: bool, me: Option<&RenderPlayer>) -> (r: (
        bool,
        Option<VehicleSlot>,
    ))
        ensures
            r.1 is Some <==> final(self).controlling != old(self).controlling,
            r.1 is Some ==> r.1->0 == final(self).controlling,
            r.0 <==> keys.launch && connected && me is Some && me->0.plane is None && me->0.plane_ready_in
                == 0 && PowerUp::Bomber.held_spec(me->0.powerups),
            me is None ==> final(self).controlling == old(self).controlling && !r.0,
            keys.tab ==> !final(self).awaiting_sortie,
            r.0 && !keys.tab ==> final(self).awaiting_sortie,
            me is Some && me->0.plane is Some ==> !final(self).awaiting_sortie,
            me is Some && me->0.plane is Some && !keys.tab && ((keys.launch && connected) || old(
                self,
            ).awaiting_sortie) && fleet_of(*me->0).has_spec(old(self).controlling) ==> final(self).controlling == VehicleSlot::Plane,
            me is Some && !keys.tab && fleet_of(*me->0).has_spec(old(self).controlling) && (
            me->0.plane is None || (!keys.launch && !old(self).awaiting_sortie)) ==> final(self).controlling == old(self).controlling,
            me is Some && (keys.tab || !fleet_of(*me->0).has_spec(old(self).controlling)) ==> final(self).controlling == old(self).controlling.next_available_spec(fleet_of(*me->0)),
            ({
                let seen = match me {
                    Some(p) => Some(*p),
                    None => None,
                };
                let slot = old(self).takes(keys, connected, seen);
                &&& *final(self) == LocalInput {
                    awaiting_sortie: old(self).still_waits(keys, connected, seen),
                    controlling: slot,
                    ..*old(self)
                }
                &&& r.0 == old(self).asks_for_sortie(keys, connected, seen)
                &&& r.1 == if slot == old(self).controlling {
                    None
                } else {
                    Some(slot)
                }
            }),
    {
        let mut launch: bool = false;
        let mut take: VehicleSlot = self.controlling;
        if let Some(p) = me {
            let up = p.plane.is_some();
            let fleet = Fleet { tank: p.tank.is_some(), miner: p.miner.is_some(), plane: up };
            if keys.launch && connected {
                if up {
                    take = VehicleSlot::Plane;
                } else if p.sortie_ready() {
                    launch = true;
                    self.awaiting_sortie = true;
                }
            }
            // The sortie that was asked for has arrived: take it.
            if self.awaiting_sortie && up {
                take = VehicleSlot::Plane;
                self.awaiting_sortie = false;
            }
            // Follow the vehicle you actually have. A destroyed tank leaves
            // nothing to drive, and an aircraft running dry takes the controls
            // out from under you mid-flight.
            if keys.tab || !fleet.has(self.controlling) {
                take = self.controlling.next_available(fleet);
            }
        }
        if keys.tab {
            // Choosing something by hand is the player saying where they want
            // to be, so a sortie still in the post no longer gets to move them.
            self.awaiting_sortie = false;
        }
        if take == self.controlling {
            (launch, None)
        } else {
            self.controlling = take;
            (launch, Some(take))
        }
    }

    /// The input once the keys have been read.
    pub open spec fn after_keys(
        self,
        keys: &Keys,
        controls: Controls,
        connected: bool,
        me: Option<RenderPlayer>,
    ) -> LocalInput {
        if !controls.live {
            LocalInput {
                throttle: 0,
                steer: 0,
                climb: 0,
                fire_primary: false,
                fire_secondary: false,
                ..self
            }
        } else {
            LocalInput {
                awaiting_sortie: self.still_waits(keys, connected, me),
                controlling: self.takes(keys, connected, me),
                ..self.driven(keys, controls)
            }
        }
    }

    /// Reads the keys.
    ///
    /// With the menu up the vehicle coasts: it should not carry on driving on
    /// whatever was held at the time, and a click on a menu item is not a
    /// trigger pull. Aim is left where it was: a turret that snaps is worse than
    /// one that waits. Cheat mode works whatever is on screen: it is not a
    /// control, it changes what the match is.
    pub fn gather(
        &mut self,
        keys: &Keys,
        menu_open: bool,
        overview_active: bool,
        connected: bool,
        me: Option<&RenderPlayer>,
    ) -> (r: Wishes)
        requires
            keys.digits@.len() == POWERUPS,
        ensures
            !menu_open && old(self).controlling == VehicleSlot::Plane ==> {
                &&& keys.back && !keys.forward <==> final(self).climb == ONE
                &&& keys.forward && !keys.back <==> final(self).climb == MINUS_ONE
                &&& final(self).throttle == final(self).detent
                &&& final(self).build_menu ==> final(self).detent == old(self).detent
                &&& !final(self).build_menu && keys.digits@[0] ==> final(self).detent == MINUS_ONE
                &&& !final(self).build_menu && !keys.digits@[0] && !keys.digits@[1] && !keys.digits@[2]
                    && !keys.digits@[3] && !keys.digits@[4] ==> final(self).detent == old(self).detent
            },
            old(self).controlling != VehicleSlot::Plane || menu_open ==> final(self).detent == old(
                self,
            ).detent,
            menu_open ==> {
                &&& final(self).throttle == 0 && final(self).steer == 0 && final(self).climb == 0
                &&& !final(self).fire_primary && !final(self).fire_secondary
                &&& final(self).controlling == old(self).controlling && final(self).build_menu == old(
                    self,
                ).build_menu
                &&& !r.launch && r.follow is None && r.purchases@.len() == 0
            },
            final(self).aim == old(self).aim && final(self).tick == old(self).tick,
            r.toggle_cheats <==> keys.alt && keys.cheat && connected,
            !menu_open ==> {
                &&& final(self).build_menu <==> old(self).build_menu != keys.build
                &&& final(self).fire_primary <==> keys.space || (!overview_active && keys.mouse_left)
                &&& final(self).fire_secondary <==> keys.fire || (!overview_active && keys.mouse_right)
                &&& keys.right && !keys.left <==> final(self).steer == ONE
                &&& keys.left && !keys.right <==> final(self).steer == MINUS_ONE
                &&& old(self).controlling != VehicleSlot::Plane ==> final(self).climb == 0 && (keys.forward
                    && !keys.back <==> final(self).throttle == ONE) && (keys.back && !keys.forward <==> final(self).throttle == MINUS_ONE)
            },
            r.follow is Some <==> final(self).controlling != old(self).controlling,
            r.launch ==> !menu_open && connected && keys.launch && me is Some && me->0.plane is None
                && PowerUp::Bomber.held_spec(me->0.powerups),
            forall|k: int|
                0 <= k < r.purchases@.len() ==> keys.digits@[(#[trigger] r.purchases@[k]).index_spec()]
                    && final(self).build_menu && connected && !menu_open,
            ({
                let controls = Controls {
                    live: !menu_open,
                    mouse_fires: !menu_open && !overview_active,
                };
                let seen = match me {
                    Some(p) => Some(*p),
                    None => None,
                };
                let after = old(self).after_keys(keys, controls, connected, seen);
                let bought = pressed_digits(keys.digits@, keys.digits@.len());
                &&& *final(self) == after
                &&& r.toggle_cheats == (keys.alt && keys.cheat && connected)
                &&& r.launch == (controls.live && old(self).asks_for_sortie(keys, connected, seen))
                &&& r.follow == if after.controlling == old(self).controlling {
                    None
                } else {
                    Some(after.controlling)
                }
                &&& if controls.live && after.build_menu && connected {
                    &&& r.purchases@.len() == bought.len()
                    &&& forall|k: int|
                        0 <= k < bought.len() ==> (#[trigger] r.purchases@[k]).index_spec()
                            == bought[k]
                } else {
                    r.purchases@.len() == 0
                }
            }),
    {
        let toggle_cheats = keys.alt && keys.cheat && connected;
        let controls = controls_for(menu_open, overview_active);
        if !controls.live {
            self.throttle = 0;
            self.steer = 0;
            self.climb = 0;
            self.fire_primary = false;
            self.fire_secondary = false;
            return Wishes { toggle_cheats, launch: false, purchases: Vec::new(), follow: None };
        }
        self.drive(keys, controls);
        let (launch, follow) = self.switch(keys, connected, me);
        let purchases = if self.build_menu && connected {
            buys(keys)
        } else {
            Vec::new()
        };
        Wishes { toggle_cheats, launch, purchases, follow }
    }

    /// Aims the turret wherever the cursor is over the ground, unless that is
    /// right on top of the vehicle.
    pub fn aim_at(&mut self, bearing: Option<Bearing>)
        ensures
            *final(self) == (LocalInput {
                aim: match bearing {
                    Some(b) if b.reach > ONE => b.angle,
                    _ => old(self).aim,
                },
                ..*old(self)
            }),
    {
        if let Some(b) = bearing {
            if b.reach > ONE {
                self.aim = b.angle;
            }
        }
    }

    /// The frame to send this tick. Nothing is sent without a connection.
    pub fn next_frame(&mut self, connected: bool) -> (r: Option<InputFrame>)
        ensures
            match r {
                None => !connected && *final(self) == *old(self),
                Some(frame) => {
                    let tick = if old(self).tick == u32::MAX {
                        0
                    } else {
                        (old(self).tick + 1) as u32
                    };
                    &&& connected
                    &&& frame == InputFrame {
                        tick,
                        controlling: old(self).controlling,
                        throttle: old(self).throttle,
                        steer: old(self).steer,
                        climb: old(self).climb,
                        aim: old(self).aim,
                        fire_primary: old(self).fire_primary,
                        fire_secondary: old(self).fire_secondary,
                    }
                    &&& *final(self) == LocalInput { tick, current: frame, ..*old(self) }
                },
            },
    {
        if !connected {
            return None;
        }
        self.tick = self.tick.wrapping_add(1);
        let frame = InputFrame {
            tick: self.tick,
            controlling: self.controlling,
            throttle: self.throttle,
            steer: self.steer,
            climb: self.climb,
            aim: self.aim,
            fire_primary: self.fire_primary,
            fire_secondary: self.fire_secondary,
        };
        self.current = frame;
        Some(frame)
    }
}

/// Whoever has anything left to drive ends up driving something they have.
pub proof fn lemma_a_player_drives_what_they_have(
    input: LocalInput,
    keys: &Keys,
    connected: bool,
    me: RenderPlayer,
)
    requires
        fleet_of(me).any(),
    ensures
        fleet_of(me).has_spec(input.takes(keys, connected, Some(me))),
{
}

/// Each digit stands for itself, once, in order.
pub proof fn lemma_each_key_buys_its_own(digits: Seq<bool>, n: nat)
    requires
        n <= digits.len(),
    ensures
        pressed_digits(digits, n).len() <= n,
        forall|k: int|
            0 <= k < pressed_digits(digits, n).len() ==> 0 <= #[trigger] pressed_digits(
                digits,
                n,
            )[k] < n && digits[pressed_digits(digits, n)[k]],
        forall|i: int|
            0 <= i < n && #[trigger] digits[i] ==> pressed_digits(digits, n).contains(i),
        forall|a: int, b: int|
            0 <= a < b < pressed_digits(digits, n).len() ==> #[trigger] pressed_digits(digits, n)[a]
                < #[trigger] pressed_digits(digits, n)[b],
    decreases n,
{
    if n > 0 {
        let m = (n - 1) as nat;
        lemma_each_key_buys_its_own(digits, m);
        let (before, all) = (pressed_digits(digits, m), pressed_digits(digits, n));
        assert(all == before + listed_if(digits[n - 1], n - 1));
        assert forall|i: int| 0 <= i < n && #[trigger] digits[i] implies all.contains(i) by {
            if i < m {
                let k = choose|k: int| 0 <= k < before.len() && before[k] == i;
                assert(all[k] == i);
            } else {
                assert(all[before.len() as int] == i);
            }
        }
    }
}

/// Opposed keys answer each other: the other way round is the other way, both at
/// once is neither, and forward in the air is down.
pub proof fn lemma_opposed_keys(a: bool, b: bool)
    ensures
        axis_spec(a, b) == -axis_spec(b, a),
        axis_spec(a, a) == 0,
        axis_spec(true, false) > 0,
{
}

/// The detents go from slowest to fullest, evenly about the plain cruise.
pub proof fn lemma_detents_go_up(i: int, j: int)
    requires
        0 <= i < j < 5,
    ensures
        detent_value(i) < detent_value(j),
        detent_value(4 - i) == -detent_value(i),
        detent_value(0) == MINUS_ONE && detent_value(4) == ONE,
{
}

/// In the air the stick climbs when pulled and dives when pushed, and the
/// throttle stays in the detent it was last put in; on the ground the same keys
/// drive, and the detent is left alone.
pub proof fn lemma_the_stick_is_pulled_to_climb(input: LocalInput, keys: &Keys, controls: Controls)
    requires
        keys.digits@.len() == POWERUPS,
    ensures
        ({
            let d = input.driven(keys, controls);
            let flying = input.controlling == VehicleSlot::Plane;
            let none = !keys.digits@[0] && !keys.digits@[1] && !keys.digits@[2] && !keys.digits@[3]
                && !keys.digits@[4];
            &&& d.build_menu <==> input.build_menu != keys.build
            &&& flying ==> (d.climb > 0 <==> keys.back && !keys.forward) && (d.climb < 0
                <==> keys.forward && !keys.back) && d.throttle == d.detent
            &&& !flying ==> d.climb == 0 && d.detent == input.detent && (d.throttle > 0
                <==> keys.forward && !keys.back) && (d.throttle < 0 <==> keys.back && !keys.forward)
            &&& d.build_menu || none ==> d.detent == input.detent
            &&& flying && !d.build_menu && keys.digits@[0] ==> d.detent == MINUS_ONE
            &&& flying && !d.build_menu && keys.digits@[4] && !keys.digits@[0] && !keys.digits@[1]
                && !keys.digits@[2] && !keys.digits@[3] ==> d.detent == ONE
            &&& d.controlling == input.controlling && d.aim == input.aim && d.tick == input.tick
        }),
{
}

} // verus!
