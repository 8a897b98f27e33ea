//! The in-game menu, and the three buttons over a player's own miner.
//!
//! Driven by both mouse and keyboard: a menu is the one place a player expects
//! to be able to click, and the one place they expect the arrow keys not to
//! drive a tank.

use vstd::prelude::*;

use crate::measure::Vec2;
use crate::protocol::MinerMode;
use crate::state::RenderPlayer;

verus! {

/// How many rows the menu has.
pub const ITEMS: usize = 4;

/// One row of the menu.
#[derive(Clone, Copy, Debug, PartialEq, Eq, Structural)]
pub enum MenuItem {
    Resume,
    NewGame,
    Settings,
    Quit,
}

impl MenuItem {
    pub open spec fn index_spec(self) -> int {
        match self {
            MenuItem::Resume => 0,
            MenuItem::NewGame => 1,
            MenuItem::Settings => 2,
            MenuItem::Quit => 3,
        }
    }

    /// Where the row is, from the top.
    pub fn index(self) -> (r: usize)
        ensures
            self == MenuItem::Resume <==> r == 0,
            self == MenuItem::NewGame <==> r == 1,
            self == MenuItem::Settings <==> r == 2,
            self == MenuItem::Quit <==> r == 3,
            r == self.index_spec(),
            r < ITEMS,
    {
        match self {
            MenuItem::Resume => 0,
            MenuItem::NewGame => 1,
            MenuItem::Settings => 2,
            MenuItem::Quit => 3,
        }
    }

    pub open spec fn at_spec(i: int) -> MenuItem {
        if i == 0 {
            MenuItem::Resume
        } else if i == 1 {
            MenuItem::NewGame
        } else if i == 2 {
            MenuItem::Settings
        } else {
            MenuItem::Quit
        }
    }

    /// The row at `i` from the top.
    pub fn at(i: usize) -> (r: MenuItem)
        requires
            i < ITEMS,
        ensures
            r == MenuItem::Resume <==> i == 0,
            r == MenuItem::NewGame <==> i == 1,
            r == MenuItem::Settings <==> i == 2,
            r == MenuItem::Quit <==> i == 3,
            r == MenuItem::at_spec(i as int),
            r.index_spec() == i,
    {
        if i == 0 {
            MenuItem::Resume
        } else if i == 1 {
            MenuItem::NewGame
        } else if i == 2 {
            MenuItem::Settings
        } else {
            MenuItem::Quit
        }
    }

    pub fn label(self) -> (r: &'static str)
        ensures
            r@ == match self {
                MenuItem::Resume => "Resume"@,
                MenuItem::NewGame => "New Game"@,
                MenuItem::Settings => "Settings"@,
                MenuItem::Quit => "Quit"@,
            },
    {
        match self {
            MenuItem::Resume => "Resume",
            MenuItem::NewGame => "New Game",
            MenuItem::Settings => "Settings",
            MenuItem::Quit => "Quit",
        }
    }

    pub fn note(self) -> (r: &'static str)
        ensures
            r@ == match self {
                MenuItem::Resume => "back to the field"@,
                MenuItem::NewGame => "restart the match for everyone, on a fresh map"@,
                MenuItem::Settings => "not yet"@,
                MenuItem::Quit => "leave the match and close the game"@,
            },
    {
        match self {
            MenuItem::Resume => "back to the field",
            MenuItem::NewGame => "restart the match for everyone, on a fresh map",
            MenuItem::Settings => "not yet",
            MenuItem::Quit => "leave the match and close the game",
        }
    }

    pub open spec fn enabled_spec(self) -> bool {
        self != MenuItem::Settings
    }

    /// Whether the item does anything. A disabled item is skipped by the arrow
    /// keys and never lights up under the cursor.
    pub fn enabled(self) -> (r: bool)
        ensures
            r <==> self != MenuItem::Settings,
            r == self.enabled_spec(),
    {
        match self {
            MenuItem::Settings => false,
            _ => true,
        }
    }
}

/// The row `k` steps of `delta` on from `from`, round the ends.
pub open spec fn walked(from: int, delta: int, k: int) -> int {
    (from + k * delta) % (ITEMS as int)
}

/// Where walking ends: on the first row that does something, or back where it
/// began.
pub open spec fn step_spec(from: int, delta: int) -> int {
    if MenuItem::at_spec(walked(from, delta, 1)).enabled_spec() {
        walked(from, delta, 1)
    } else if MenuItem::at_spec(walked(from, delta, 2)).enabled_spec() {
        walked(from, delta, 2)
    } else if MenuItem::at_spec(walked(from, delta, 3)).enabled_spec() {
        walked(from, delta, 3)
    } else if MenuItem::at_spec(walked(from, delta, 4)).enabled_spec() {
        walked(from, delta, 4)
    } else {
        from
    }
}

fn around(at: usize, delta: isize) -> (r: usize)
    requires
        at < ITEMS,
        isize::MIN < delta <= isize::MAX - ITEMS,
    ensures
        r as int == (at + delta) % (ITEMS as int),
        r < ITEMS,
{
    let moved: isize = at as isize + delta;
    if moved >= 0 {
        moved as usize % ITEMS
    } else {
        let short: usize = (0 - moved) as usize % ITEMS;
        if short == 0 {
            0
        } else {
            ITEMS - short
        }
    }
}

/// Walks the selection by `delta`, wrapping, and skipping disabled items.
pub fn step(from: usize, delta: isize) -> (r: usize)
    requires
        from < ITEMS,
        isize::MIN < delta <= isize::MAX - ITEMS,
    ensures
        delta == 1 && from == 0 ==> r == 1,
        delta == 1 && (from == 1 || from == 2) ==> r == 3,
        delta == 1 && from == 3 ==> r == 0,
        delta == -1 && from == 0 ==> r == 3,
        delta == -1 && (from == 2 || from == 3) ==> r == 1,
        delta == -1 && from == 1 ==> r == 0,
        r as int == step_spec(from as int, delta as int),
        r < ITEMS,
{
    let one = around(from, delta);
    if MenuItem::at(one).enabled() {
        return one;
    }
    let two = around(one, delta);
    assert(two as int == walked(from as int, delta as int, 2));
    if MenuItem::at(two).enabled() {
        return two;
    }
    let three = around(two, delta);
    assert(three as int == walked(from as int, delta as int, 3));
    if MenuItem::at(three).enabled() {
        return three;
    }
    let four = around(three, delta);
    assert(four as int == walked(from as int, delta as int, 4));
    if MenuItem::at(four).enabled() {
        return four;
    }
    from
}

/// What the menu was used for this frame.
#[derive(Clone, Copy, Debug, PartialEq, Eq, Structural)]
pub struct Use {
    pub down: bool,
    pub up: bool,
    pub enter: bool,
    /// The row under the cursor, among those that light up.
    pub hovered: Option<MenuItem>,
    /// Whether the mouse button has just been pressed.
    pub clicked: bool,
}

#[derive(Clone, Copy, Debug, PartialEq, Eq, Structural)]
pub struct MenuState {
    pub open: bool,
    /// The row that is lit; always one that does something.
    pub selected: usize,
}

impl MenuState {
    /// The lit row does something.
    pub open spec fn wf(&self) -> bool {
        self.selected < ITEMS && MenuItem::at_spec(self.selected as int).enabled_spec()
    }

    pub fn new() -> (r: Self)
        ensures
            r.wf(),
            !r.open,
            r.selected == 0,
    {
        MenuState { open: false, selected: 0 }
    }

    /// `Escape` backs out of whatever is in front of the player: the build menu
    /// first, and the menu only once that is down.
    pub fn toggle(&mut self, build_menu: &mut bool)
        requires
            old(self).wf(),
        ensures
            final(self).wf(),
            !*final(build_menu),
            *final(self) == if *old(build_menu) {
                *old(self)
            } else {
                MenuState { open: !old(self).open, ..*old(self) }
            },
    {
        if *build_menu {
            *build_menu = false;
        } else {
            self.open = !self.open;
        }
    }

    /// The row that is lit once the arrow keys and the cursor have been
    /// followed. The cursor takes the selection with it, so the keyboard and
    /// the mouse never disagree about what Enter would do.
    pub open spec fn lit(self, u: Use) -> int {
        let walked_down = if u.down {
            step_spec(self.selected as int, 1)
        } else {
            self.selected as int
        };
        let walked_up = if u.up {
            step_spec(walked_down, -1)
        } else {
            walked_down
        };
        match u.hovered {
            Some(item) => item.index_spec(),
            None => walked_up,
        }
    }

    /// What was chosen: a click on the row under the cursor, or Enter on the
    /// lit one. Activated on the press rather than the release: releasing over
    /// a menu that has already closed would land the click on the game.
    pub open spec fn chosen(self, u: Use) -> Option<MenuItem> {
        if u.clicked && u.hovered is Some {
            u.hovered
        } else if u.enter {
            Some(MenuItem::at_spec(self.lit(u)))
        } else {
            None
        }
    }

    /// Moves the selection and activates an item. Hands back what is left to be
    /// done: a new game to be asked for, or the match to be left.
    pub fn update(&mut self, u: Use) -> (r: Option<MenuItem>)
        requires
            old(self).wf(),
            u.hovered is Some ==> u.hovered->0.enabled_spec(),
        ensures
            old(self).open && u.hovered is Some ==> final(self).selected == u.hovered->0.index_spec(),
            old(self).open && u.hovered is None && !u.down && !u.up ==> final(self).selected == old(
                self,
            ).selected,
            old(self).open && u.hovered is Some && (u.clicked || u.enter) ==> {
                &&& u.hovered->0 == MenuItem::Resume ==> !final(self).open && r is None
                &&& u.hovered->0 == MenuItem::NewGame ==> !final(self).open && r == Some(MenuItem::NewGame)
                &&& u.hovered->0 == MenuItem::Quit ==> final(self).open && r == Some(MenuItem::Quit)
            },
            old(self).open && u.hovered is None && u.enter ==> {
                &&& final(self).selected == 0 ==> !final(self).open && r is None
                &&& final(self).selected == 1 ==> !final(self).open && r == Some(MenuItem::NewGame)
                &&& final(self).selected == 3 ==> final(self).open && r == Some(MenuItem::Quit)
            },
            old(self).open && !u.enter && (!u.clicked || u.hovered is None) ==> final(self).open
                && r is None,
            final(self).wf(),
            !old(self).open ==> *final(self) == *old(self) && r is None,
            old(self).open ==> {
                &&& final(self).selected == old(self).lit(u)
                &&& final(self).open == !(old(self).chosen(u) == Some(MenuItem::Resume) || old(
                    self,
                ).chosen(u) == Some(MenuItem::NewGame))
                &&& r == match old(self).chosen(u) {
                    Some(MenuItem::NewGame) => Some(MenuItem::NewGame),
                    Some(MenuItem::Quit) => Some(MenuItem::Quit),
                    _ => None,
                }
            },
    {
        if !self.open {
            return None;
        }
        if u.down {
            self.selected = step(self.selected, 1);
        }
        if u.up {
            self.selected = step(self.selected, -1);
        }
        let mut chosen: Option<MenuItem> = None;
        if u.enter {
            chosen = Some(MenuItem::at(self.selected));
        }
        if let Some(item) = u.hovered {
            self.selected = item.index();
            if u.clicked {
                chosen = Some(item);
            } else if u.enter {
                chosen = Some(item);
            }
        }
        match chosen {
            Some(MenuItem::Resume) => {
                self.open = false;
                None
            },
            Some(MenuItem::NewGame) => {
                self.open = false;
                Some(MenuItem::NewGame)
            },
            Some(MenuItem::Quit) => Some(MenuItem::Quit),
            // Disabled, and out of reach of both the keys and the cursor.
            Some(MenuItem::Settings) => None,
            None => None,
        }
    }

    /// Whether a row is lit.
    pub fn is_lit(&self, item: MenuItem) -> (r: bool)
        ensures
            r == (item.enabled_spec() && item.index_spec() == self.selected),
    {
        item.enabled() && item.index() == self.selected
    }
}

/// Where the miner's three buttons float, and which of them is lit: over the
/// player's own miner, and only while it is a miner rather than a wreck.
pub open spec fn panel_spec(me: Option<RenderPlayer>) -> Option<(Vec2, MinerMode)> {
    match me {
        Some(p) => match p.miner {
            Some(m) => if m.disabled {
                None
            } else {
                Some((m.pos, p.miner_mode))
            },
            None => None,
        },
        None => None,
    }
}

/// Where the miner's three buttons float, and which of them is lit.
pub fn miner_panel(me: Option<&RenderPlayer>) -> (r: Option<(Vec2, MinerMode)>)
    ensures
        r is Some <==> me is Some && me->0.miner is Some && !me->0.miner->0.disabled,
        r is Some ==> (r->0).0 == me->0.miner->0.pos && (r->0).1 == me->0.miner_mode,
        r == panel_spec(
            match me {
                Some(p) => Some(*p),
                None => None,
            },
        ),
{
    match me {
        Some(p) => match &p.miner {
            Some(m) => {
                if m.disabled {
                    None
                } else {
                    Some((m.pos, p.miner_mode))
                }
            },
            None => None,
        },
        None => None,
    }
}

/// What pressing one of the buttons asks for: the mode, unless it is the one
/// the miner is already in.
pub fn mode_pressed(button: MinerMode, mode: MinerMode, pressed: bool) -> (r: Option<MinerMode>)
    ensures
        r == if pressed && button != mode {
            Some(button)
        } else {
            None
        },
{
    if pressed && button != mode {
        Some(button)
    } else {
        None
    }
}

/// Walking the menu never ends on an item that does nothing, in either
/// direction, from anywhere.
pub proof fn lemma_walking_never_ends_on_a_disabled_item(from: int, delta: int)
    requires
        0 <= from < ITEMS,
        delta == 1 || delta == -1,
    ensures
        0 <= step_spec(from, delta) < ITEMS,
        MenuItem::at_spec(step_spec(from, delta)).enabled_spec(),
{
}

/// Walking one way and back ends where it began.
pub proof fn lemma_walking_is_reversible(from: int, delta: int)
    requires
        0 <= from < ITEMS,
        MenuItem::at_spec(from).enabled_spec(),
        delta == 1 || delta == -1,
    ensures
        step_spec(step_spec(from, delta), -delta) == from,
{
}

} // verus!
